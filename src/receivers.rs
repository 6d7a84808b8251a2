use std::collections::HashMap;
use vstd::prelude::*;

use crate::error::ChannelError;
use crate::senders::FIRST_RELIABLE_ID;
use crate::sequence::{newer_spec, next_id, next_id_spec, sequence_greater_than, split_id, u16_of};

verus! {

broadcast use vstd::std_specs::hash::group_hash_axioms;

/// Number of recent message ids an unordered reliable receiver remembers.
pub const SEEN_WINDOW: usize = 1024;

/// The contents of a list of byte buffers.
pub open spec fn payloads(v: Seq<Vec<u8>>) -> Seq<Seq<u8>> {
    v.map_values(|p: Vec<u8>| p@)
}

/// The contents of a map from id to byte buffer.
pub open spec fn buffered(m: Map<u16, Vec<u8>>) -> Map<u16, Seq<u8>> {
    m.map_values(|p: Vec<u8>| p@)
}

/// The id carried at the front of a packet.
pub open spec fn packet_id(packet: Seq<u8>) -> u16 {
    u16_of(packet)
}

/// The bytes of a packet after its id.
pub open spec fn packet_body(packet: Seq<u8>) -> Seq<u8> {
    packet.subrange(2, packet.len() as int)
}

/// A sequenced receiver whose newest accepted id is `last` accepts `id`.
pub open spec fn accepts_sequenced(last: Option<u16>, id: u16) -> bool {
    match last {
        None => true,
        Some(l) => newer_spec(id, l),
    }
}

/// The newest accepted id after a sequenced receiver has seen `id`.
pub open spec fn sequenced_step(last: Option<u16>, id: u16) -> Option<u16> {
    if accepts_sequenced(last, id) {
        Some(id)
    } else {
        last
    }
}

/// The remembered ids after `id` joins the window `seen`.
pub open spec fn window_push(seen: Seq<u16>, id: u16) -> Seq<u16> {
    if seen.len() >= SEEN_WINDOW {
        seen.push(id).drop_first()
    } else {
        seen.push(id)
    }
}

/// Delivers the buffered messages that continue the run from `next`: the state
/// of an ordered receiver once nothing more can be taken from its buffer.
pub open spec fn drain(next: u16, buf: Map<u16, Seq<u8>>, ready: Seq<Seq<u8>>) -> (u16, Map<
    u16,
    Seq<u8>,
>, Seq<Seq<u8>>)
    decreases buf.dom().len(),
    when buf.dom().finite()
{
    if buf.contains_key(next) {
        drain(next_id_spec(next), buf.remove(next), ready.push(buf[next]))
    } else {
        (next, buf, ready)
    }
}

fn push_payload(ready: &mut Vec<Vec<u8>>, p: Vec<u8>)
    ensures
        payloads(final(ready)@) == payloads(old(ready)@).push(p@),
{
    ready.push(p);
    assert(payloads(ready@) =~= payloads(old(ready)@).push(p@));
}

fn take_ready(ready: &mut Vec<Vec<u8>>) -> (r: Vec<Vec<u8>>)
    ensures
        payloads(r@) == payloads(old(ready)@),
        final(ready)@ == Seq::<Vec<u8>>::empty(),
{
    let mut out: Vec<Vec<u8>> = Vec::new();
    std::mem::swap(ready, &mut out);
    out
}

fn take_acks(acks: &mut Vec<u16>) -> (r: Vec<u16>)
    ensures
        r@ == old(acks)@,
        final(acks)@ == Seq::<u16>::empty(),
{
    let mut out: Vec<u16> = Vec::new();
    std::mem::swap(acks, &mut out);
    out
}

/// Whether `id` is among `ids`.
fn contains_id(ids: &Vec<u16>, id: u16) -> (r: bool)
    ensures
        r == ids@.contains(id),
{
    let mut i: usize = 0;
    while i < ids.len()
        invariant
            0 <= i <= ids@.len(),
            forall|j: int| 0 <= j < i ==> ids@[j] != id,
        decreases ids@.len() - i,
    {
        if ids[i] == id {
            assert(ids@[i as int] == id);
            return true;
        }
        i += 1;
    }
    false
}

/// Delivers every packet as soon as it arrives.
pub struct UnorderedUnreliableReceiver {
    ready: Vec<Vec<u8>>,
}

impl UnorderedUnreliableReceiver {
    /// Messages ready for the application, oldest first.
    pub closed spec fn ready_view(&self) -> Seq<Seq<u8>> {
        payloads(self.ready@)
    }

    pub fn new() -> (r: Self)
        ensures
            r.ready_view() == Seq::<Seq<u8>>::empty(),
    {
        let r = UnorderedUnreliableReceiver { ready: Vec::new() };
        assert(r.ready_view() =~= Seq::<Seq<u8>>::empty());
        r
    }

    /// The whole packet becomes ready at once.
    pub fn receive(&mut self, packet: Vec<u8>)
        ensures
            final(self).ready_view() == old(self).ready_view().push(packet@),
    {
        push_payload(&mut self.ready, packet);
    }

    /// Hands out the ready messages, oldest first, and forgets them.
    pub fn read_messages(&mut self) -> (r: Vec<Vec<u8>>)
        ensures
            payloads(r@) == old(self).ready_view(),
            final(self).ready_view() == Seq::<Seq<u8>>::empty(),
    {
        let r = take_ready(&mut self.ready);
        assert(self.ready_view() =~= Seq::<Seq<u8>>::empty());
        r
    }
}

/// Delivers a packet only if its sequence number is newer than every one
/// accepted before; older packets are dropped.
pub struct SequencedUnreliableReceiver {
    last_accepted: Option<u16>,
    ready: Vec<Vec<u8>>,
}

impl SequencedUnreliableReceiver {
    pub closed spec fn ready_view(&self) -> Seq<Seq<u8>> {
        payloads(self.ready@)
    }

    /// The newest sequence number accepted so far.
    pub closed spec fn last_view(&self) -> Option<u16> {
        self.last_accepted
    }

    pub fn new() -> (r: Self)
        ensures
            r.ready_view() == Seq::<Seq<u8>>::empty(),
            r.last_view() is None,
    {
        let r = SequencedUnreliableReceiver { last_accepted: None, ready: Vec::new() };
        assert(r.ready_view() =~= Seq::<Seq<u8>>::empty());
        r
    }

    /// Reads the sequence number at the front of `packet` and keeps the rest
    /// if that number is newer than the last accepted one.
    pub fn receive(&mut self, packet: &[u8]) -> (r: Result<(), ChannelError>)
        ensures
            packet@.len() < 2 <==> r is Err,
            r is Err ==> r == Err::<(), _>(ChannelError::DecodeError) && *final(self) == *old(
                self,
            ),
            r is Ok ==> {
                let id = packet_id(packet@);
                &&& final(self).last_view() == sequenced_step(old(self).last_view(), id)
                &&& final(self).ready_view() == if accepts_sequenced(old(self).last_view(), id) {
                    old(self).ready_view().push(packet_body(packet@))
                } else {
                    old(self).ready_view()
                }
            },
    {
        match split_id(packet) {
            None => Err(ChannelError::DecodeError),
            Some((id, body)) => {
                let accept = match self.last_accepted {
                    None => true,
                    Some(l) => sequence_greater_than(id, l),
                };
                if accept {
                    self.last_accepted = Some(id);
                    push_payload(&mut self.ready, body);
                }
                Ok(())
            },
        }
    }

    pub fn read_messages(&mut self) -> (r: Vec<Vec<u8>>)
        ensures
            payloads(r@) == old(self).ready_view(),
            final(self).ready_view() == Seq::<Seq<u8>>::empty(),
            final(self).last_view() == old(self).last_view(),
    {
        let r = take_ready(&mut self.ready);
        assert(self.ready_view() =~= Seq::<Seq<u8>>::empty());
        r
    }
}

/// Delivers each new message id once, in order of arrival, and acknowledges
/// every arrival, duplicates included.
pub struct UnorderedReliableReceiver {
    seen: Vec<u16>,
    ready: Vec<Vec<u8>>,
    acks: Vec<u16>,
}

impl UnorderedReliableReceiver {
    pub closed spec fn ready_view(&self) -> Seq<Seq<u8>> {
        payloads(self.ready@)
    }

    /// The most recent ids delivered, oldest first.
    pub closed spec fn seen_view(&self) -> Seq<u16> {
        self.seen@
    }

    /// Ids to acknowledge to the sender, in order of arrival.
    pub closed spec fn acks_view(&self) -> Seq<u16> {
        self.acks@
    }

    pub closed spec fn wf(&self) -> bool {
        self.seen@.len() <= SEEN_WINDOW
    }

    pub fn new() -> (r: Self)
        ensures
            r.wf(),
            r.ready_view() == Seq::<Seq<u8>>::empty(),
            r.seen_view() == Seq::<u16>::empty(),
            r.acks_view() == Seq::<u16>::empty(),
    {
        let r = UnorderedReliableReceiver { seen: Vec::new(), ready: Vec::new(), acks: Vec::new() };
        assert(r.ready_view() =~= Seq::<Seq<u8>>::empty());
        r
    }

    /// Acknowledges the id at the front of `packet`, and delivers the rest if
    /// that id is not among the remembered ones.
    pub fn receive(&mut self, packet: &[u8]) -> (r: Result<(), ChannelError>)
        requires
            old(self).wf(),
        ensures
            final(self).wf(),
            packet@.len() < 2 <==> r is Err,
            r is Err ==> r == Err::<(), _>(ChannelError::DecodeError) && *final(self) == *old(
                self,
            ),
            r is Ok ==> {
                let id = packet_id(packet@);
                let fresh = !old(self).seen_view().contains(id);
                &&& final(self).acks_view() == old(self).acks_view().push(id)
                &&& final(self).seen_view() == if fresh {
                    window_push(old(self).seen_view(), id)
                } else {
                    old(self).seen_view()
                }
                &&& final(self).ready_view() == if fresh {
                    old(self).ready_view().push(packet_body(packet@))
                } else {
                    old(self).ready_view()
                }
            },
    {
        match split_id(packet) {
            None => Err(ChannelError::DecodeError),
            Some((id, body)) => {
                self.acks.push(id);
                if !contains_id(&self.seen, id) {
                    self.seen.push(id);
                    if self.seen.len() > SEEN_WINDOW {
                        self.seen.remove(0);
                    }
                    push_payload(&mut self.ready, body);
                }
                Ok(())
            },
        }
    }

    pub fn read_messages(&mut self) -> (r: Vec<Vec<u8>>)
        requires
            old(self).wf(),
        ensures
            final(self).wf(),
            payloads(r@) == old(self).ready_view(),
            final(self).ready_view() == Seq::<Seq<u8>>::empty(),
            final(self).seen_view() == old(self).seen_view(),
            final(self).acks_view() == old(self).acks_view(),
    {
        let r = take_ready(&mut self.ready);
        assert(self.ready_view() =~= Seq::<Seq<u8>>::empty());
        r
    }

    /// Hands out the ids to acknowledge and forgets them.
    pub fn drain_acks(&mut self) -> (r: Vec<u16>)
        requires
            old(self).wf(),
        ensures
            final(self).wf(),
            r@ == old(self).acks_view(),
            final(self).acks_view() == Seq::<u16>::empty(),
            final(self).ready_view() == old(self).ready_view(),
            final(self).seen_view() == old(self).seen_view(),
    {
        take_acks(&mut self.acks)
    }
}

/// Acknowledges every arrival but delivers a message only if its id is newer
/// than every one delivered before.
pub struct SequencedReliableReceiver {
    last_accepted: Option<u16>,
    ready: Vec<Vec<u8>>,
    acks: Vec<u16>,
}

impl SequencedReliableReceiver {
    pub closed spec fn ready_view(&self) -> Seq<Seq<u8>> {
        payloads(self.ready@)
    }

    pub closed spec fn last_view(&self) -> Option<u16> {
        self.last_accepted
    }

    pub closed spec fn acks_view(&self) -> Seq<u16> {
        self.acks@
    }

    pub fn new() -> (r: Self)
        ensures
            r.ready_view() == Seq::<Seq<u8>>::empty(),
            r.last_view() is None,
            r.acks_view() == Seq::<u16>::empty(),
    {
        let r = SequencedReliableReceiver { last_accepted: None, ready: Vec::new(), acks: Vec::new() };
        assert(r.ready_view() =~= Seq::<Seq<u8>>::empty());
        r
    }

    /// Acknowledges the id at the front of `packet`, and delivers the rest if
    /// that id is newer than the last delivered one.
    pub fn receive(&mut self, packet: &[u8]) -> (r: Result<(), ChannelError>)
        ensures
            packet@.len() < 2 <==> r is Err,
            r is Err ==> r == Err::<(), _>(ChannelError::DecodeError) && *final(self) == *old(
                self,
            ),
            r is Ok ==> {
                let id = packet_id(packet@);
                &&& final(self).acks_view() == old(self).acks_view().push(id)
                &&& final(self).last_view() == sequenced_step(old(self).last_view(), id)
                &&& final(self).ready_view() == if accepts_sequenced(old(self).last_view(), id) {
                    old(self).ready_view().push(packet_body(packet@))
                } else {
                    old(self).ready_view()
                }
            },
    {
        match split_id(packet) {
            None => Err(ChannelError::DecodeError),
            Some((id, body)) => {
                self.acks.push(id);
                let accept = match self.last_accepted {
                    None => true,
                    Some(l) => sequence_greater_than(id, l),
                };
                if accept {
                    self.last_accepted = Some(id);
                    push_payload(&mut self.ready, body);
                }
                Ok(())
            },
        }
    }

    pub fn read_messages(&mut self) -> (r: Vec<Vec<u8>>)
        ensures
            payloads(r@) == old(self).ready_view(),
            final(self).ready_view() == Seq::<Seq<u8>>::empty(),
            final(self).last_view() == old(self).last_view(),
            final(self).acks_view() == old(self).acks_view(),
    {
        let r = take_ready(&mut self.ready);
        assert(self.ready_view() =~= Seq::<Seq<u8>>::empty());
        r
    }

    pub fn drain_acks(&mut self) -> (r: Vec<u16>)
        ensures
            r@ == old(self).acks_view(),
            final(self).acks_view() == Seq::<u16>::empty(),
            final(self).ready_view() == old(self).ready_view(),
            final(self).last_view() == old(self).last_view(),
    {
        take_acks(&mut self.acks)
    }
}

/// Delivers messages in the order of their ids, holding early arrivals back
/// until the ones before them have come.
pub struct OrderedReliableReceiver {
    next_expected: u16,
    buffer: HashMap<u16, Vec<u8>>,
    ready: Vec<Vec<u8>>,
    acks: Vec<u16>,
}

impl OrderedReliableReceiver {
    pub closed spec fn ready_view(&self) -> Seq<Seq<u8>> {
        payloads(self.ready@)
    }

    /// The id that must arrive next for delivery to go on.
    pub closed spec fn next_view(&self) -> u16 {
        self.next_expected
    }

    /// Messages that arrived ahead of their turn, by id.
    pub closed spec fn buffer_view(&self) -> Map<u16, Seq<u8>> {
        buffered(self.buffer@)
    }

    pub closed spec fn acks_view(&self) -> Seq<u16> {
        self.acks@
    }

    pub fn new() -> (r: Self)
        ensures
            r.ready_view() == Seq::<Seq<u8>>::empty(),
            r.next_view() == FIRST_RELIABLE_ID,
            r.buffer_view() == Map::<u16, Seq<u8>>::empty(),
            r.acks_view() == Seq::<u16>::empty(),
    {
        let r = OrderedReliableReceiver {
            next_expected: FIRST_RELIABLE_ID,
            buffer: HashMap::new(),
            ready: Vec::new(),
            acks: Vec::new(),
        };
        assert(r.ready_view() =~= Seq::<Seq<u8>>::empty());
        assert(r.buffer_view() =~= Map::<u16, Seq<u8>>::empty());
        r
    }

    /// Delivers the message with id `next_expected`, then every buffered one
    /// that continues the run.
    fn deliver_run(&mut self, body: Vec<u8>)
        ensures
            ({
                let (n, b, r) = drain(
                    next_id_spec(old(self).next_view()),
                    old(self).buffer_view(),
                    old(self).ready_view().push(body@),
                );
                &&& final(self).next_view() == n
                &&& final(self).buffer_view() == b
                &&& final(self).ready_view() == r
            }),
            final(self).acks_view() == old(self).acks_view(),
    {
        let ghost target = drain(
            next_id_spec(old(self).next_view()),
            old(self).buffer_view(),
            old(self).ready_view().push(body@),
        );
        assert(self.buffer_view().dom() =~= self.buffer@.dom());
        push_payload(&mut self.ready, body);
        self.next_expected = next_id(self.next_expected);
        loop
            invariant
                drain(self.next_view(), self.buffer_view(), self.ready_view()) == target,
                self.buffer_view().dom().finite(),
                self.acks_view() == old(self).acks_view(),
            ensures
                target == (self.next_view(), self.buffer_view(), self.ready_view()),
                self.acks_view() == old(self).acks_view(),
            decreases self.buffer@.dom().len(),
        {
            let k = self.next_expected;
            let ghost before = self.buffer_view();
            let ghost raw = self.buffer@;
            assert(raw.dom().finite());
            assert(before.dom() =~= raw.dom());
            match self.buffer.remove(&k) {
                None => {
                    assert(!before.contains_key(k));
                    assert(self.buffer@ =~= raw);
                    assert(self.buffer_view() == before);
                    assert(drain(k, before, self.ready_view()) == (k, before, self.ready_view()));
                    break;
                },
                Some(p) => {
                    assert(before.contains_key(k));
                    assert(self.buffer_view() =~= before.remove(k));
                    assert(before[k] == p@);
                    push_payload(&mut self.ready, p);
                    self.next_expected = next_id(self.next_expected);
                    assert(raw.dom().len() == self.buffer@.dom().len() + 1);
                    assert(self.buffer_view().dom() =~= self.buffer@.dom());
                },
            }
        }
    }

    /// Reads the id at the front of `packet`: the expected id is delivered
    /// together with the buffered run after it, a newer id is buffered, and an
    /// older one has been delivered before and is dropped. Every id that is
    /// not dropped is acknowledged.
    pub fn receive(&mut self, packet: &[u8]) -> (r: Result<(), ChannelError>)
        ensures
            packet@.len() < 2 <==> r is Err,
            r is Err ==> r == Err::<(), _>(ChannelError::DecodeError) && final(self).ready_view()
                == old(self).ready_view() && final(self).next_view() == old(self).next_view()
                && final(self).buffer_view() == old(self).buffer_view()
                && final(self).acks_view() == old(self).acks_view(),
            r is Ok ==> {
                let id = packet_id(packet@);
                let body = packet_body(packet@);
                let old_next = old(self).next_view();
                if id == old_next {
                    let (n, b, rd) = drain(
                        next_id_spec(old_next),
                        old(self).buffer_view(),
                        old(self).ready_view().push(body),
                    );
                    &&& final(self).next_view() == n
                    &&& final(self).buffer_view() == b
                    &&& final(self).ready_view() == rd
                    &&& final(self).acks_view() == old(self).acks_view().push(id)
                } else if newer_spec(id, old_next) {
                    &&& final(self).next_view() == old_next
                    &&& final(self).buffer_view() == old(self).buffer_view().insert(id, body)
                    &&& final(self).ready_view() == old(self).ready_view()
                    &&& final(self).acks_view() == old(self).acks_view().push(id)
                } else {
                    &&& final(self).next_view() == old_next
                    &&& final(self).buffer_view() == old(self).buffer_view()
                    &&& final(self).ready_view() == old(self).ready_view()
                    &&& final(self).acks_view() == old(self).acks_view()
                }
            },
    {
        match split_id(packet) {
            None => Err(ChannelError::DecodeError),
            Some((id, body)) => {
                if id == self.next_expected {
                    self.acks.push(id);
                    self.deliver_run(body);
                } else if sequence_greater_than(id, self.next_expected) {
                    self.acks.push(id);
                    let ghost before = self.buffer_view();
                    let ghost b = body@;
                    self.buffer.insert(id, body);
                    assert(self.buffer_view() =~= before.insert(id, b));
                }
                Ok(())
            },
        }
    }

    pub fn read_messages(&mut self) -> (r: Vec<Vec<u8>>)
        ensures
            payloads(r@) == old(self).ready_view(),
            final(self).ready_view() == Seq::<Seq<u8>>::empty(),
            final(self).next_view() == old(self).next_view(),
            final(self).buffer_view() == old(self).buffer_view(),
            final(self).acks_view() == old(self).acks_view(),
    {
        let r = take_ready(&mut self.ready);
        assert(self.ready_view() =~= Seq::<Seq<u8>>::empty());
        r
    }

    pub fn drain_acks(&mut self) -> (r: Vec<u16>)
        ensures
            r@ == old(self).acks_view(),
            final(self).acks_view() == Seq::<u16>::empty(),
            final(self).ready_view() == old(self).ready_view(),
            final(self).next_view() == old(self).next_view(),
            final(self).buffer_view() == old(self).buffer_view(),
    {
        take_acks(&mut self.acks)
    }
}

} // verus!
