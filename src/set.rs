use vstd::prelude::*;

use crate::channel::{ChannelHeader, ChannelKind, ChannelSettings};
use crate::container::{receiver_received, ChannelContainer};
use crate::error::ChannelError;
use crate::sequence::u16_of;

verus! {

/// The position of the channel of `kind` in `channels`, or -1.
pub open spec fn position(channels: Seq<(ChannelKind, ChannelContainer)>, kind: ChannelKind) -> int
    decreases channels.len(),
{
    if channels.len() == 0 {
        -1
    } else if channels.last().0 == kind {
        channels.len() - 1
    } else {
        position(channels.drop_last(), kind)
    }
}

/// The position found is that of a channel of the kind.
pub proof fn lemma_position_in_bounds(channels: Seq<(ChannelKind, ChannelContainer)>, kind: ChannelKind)
    ensures
        -1 <= position(channels, kind) < channels.len(),
        position(channels, kind) != -1 ==> channels[position(channels, kind)].0 == kind,
    decreases channels.len(),
{
    if channels.len() > 0 {
        lemma_position_in_bounds(channels.drop_last(), kind);
    }
}

/// The channels of one connection, one container per kind, and the routing of
/// incoming packets to them by the kind in their header.
pub struct ChannelSet {
    channels: Vec<(ChannelKind, ChannelContainer)>,
}

impl ChannelSet {
    /// The channels, in the order they were added.
    pub closed spec fn channels_view(&self) -> Seq<(ChannelKind, ChannelContainer)> {
        self.channels@
    }

    /// Every container is well formed.
    pub open spec fn wf(&self) -> bool {
        forall|i: int|
            0 <= i < self.channels_view().len() ==> (#[trigger] self.channels_view()[i]).1.wf()
    }

    pub fn new() -> (r: Self)
        ensures
            r.wf(),
            r.channels_view().len() == 0,
    {
        ChannelSet { channels: Vec::new() }
    }

    fn find(&self, kind: ChannelKind) -> (r: Option<usize>)
        ensures
            match r {
                None => position(self.channels_view(), kind) == -1,
                Some(i) => i as int == position(self.channels_view(), kind) && i
                    < self.channels_view().len() && self.channels_view()[i as int].0 == kind,
            },
    {
        proof {
            lemma_position_in_bounds(self.channels@, kind);
        }
        let ghost all = self.channels@;
        let mut i: usize = self.channels.len();
        assert(all.subrange(0, i as int) =~= all);
        while i > 0
            invariant
                0 <= i <= all.len(),
                all == self.channels@,
                position(all, kind) == position(all.subrange(0, i as int), kind),
            decreases i,
        {
            assert(all.subrange(0, i as int).drop_last() =~= all.subrange(0, i - 1));
            if self.channels[i - 1].0.0 == kind.0 {
                return Some(i - 1);
            }
            i -= 1;
        }
        None
    }

    /// Adds a channel of `kind` built from `settings`; a kind present already
    /// is refused and the set is left as it was.
    pub fn add(&mut self, kind: ChannelKind, settings: ChannelSettings) -> (r: Result<
        (),
        ChannelError,
    >)
        requires
            old(self).wf(),
        ensures
            final(self).wf(),
            position(old(self).channels_view(), kind) != -1 <==> r is Err,
            r is Err ==> r == Err::<(), _>(ChannelError::DuplicateChannelKind) && final(self).channels_view() == old(self).channels_view(),
            r is Ok ==> {
                let c = final(self).channels_view().last().1;
                &&& final(self).channels_view().drop_last() == old(self).channels_view()
                &&& final(self).channels_view().last().0 == kind
                &&& c.settings_spec() == settings
            },
    {
        match self.find(kind) {
            Some(_) => Err(ChannelError::DuplicateChannelKind),
            None => {
                self.channels.push((kind, ChannelContainer::new(settings)));
                assert(self.channels_view().drop_last() =~= old(self).channels_view());
                Ok(())
            },
        }
    }

    /// Reads the header of `packet` and hands the rest to the channel of its
    /// kind. A packet too short for a header is a decode error and a kind
    /// without a channel is unknown; either way nothing changes.
    pub fn receive(&mut self, packet: &[u8]) -> (r: Result<(), ChannelError>)
        requires
            old(self).wf(),
        ensures
            final(self).wf(),
            packet@.len() < 2 ==> r == Err::<(), _>(ChannelError::DecodeError) && final(self).channels_view() == old(self).channels_view(),
            packet@.len() >= 2 ==> {
                let kind = ChannelKind(u16_of(packet@));
                let i = position(old(self).channels_view(), kind);
                let body = packet@.subrange(2, packet@.len() as int);
                if i == -1 {
                    &&& r == Err::<(), _>(ChannelError::UnknownChannelKind)
                    &&& final(self).channels_view() == old(self).channels_view()
                } else {
                    let before = old(self).channels_view()[i].1;
                    let after = final(self).channels_view()[i].1;
                    &&& final(self).channels_view() == old(self).channels_view().update(
                        i,
                        (kind, after),
                    )
                    &&& after.settings_spec() == before.settings_spec()
                    &&& after.sender_spec() == before.sender_spec()
                    &&& receiver_received(before.receiver_spec(), after.receiver_spec(), body, r)
                }
            },
    {
        let (header, body) = match ChannelHeader::read(packet) {
            Err(e) => return Err(e),
            Ok(hb) => hb,
        };
        match self.find(header.kind) {
            None => Err(ChannelError::UnknownChannelKind),
            Some(i) => {
                let ghost old_channels = self.channels@;
                let (kind, mut container) = self.channels.remove(i);
                assert(old_channels[i as int].1.wf());
                let r = container.receive_packet(body);
                self.channels.insert(i, (kind, container));
                assert(self.channels@ =~= old_channels.update(i as int, (kind, container)));
                assert forall|j: int|
                    0 <= j < self.channels_view().len() implies (
                    #[trigger] self.channels_view()[j]).1.wf() by {
                    if j != i {
                        assert(old_channels[j].1.wf());
                    }
                }
                r
            },
        }
    }
}

} // verus!
