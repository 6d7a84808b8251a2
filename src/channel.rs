use vstd::prelude::*;

use crate::error::ChannelError;
use crate::sequence::{frame_with_id, lemma_u16_round_trip, split_id, u16_bytes, u16_of};
use crate::settings::ReliableSettings;

verus! {

/// Identifies a registered type of channel; it routes packets to their
/// channel on the receiving side.
#[derive(Clone, Copy, Debug, PartialEq, Eq, Hash, Structural)]
pub struct ChannelKind(pub u16);

impl ChannelKind {
    pub fn new(id: u16) -> (r: Self)
        ensures
            r.0 == id,
    {
        ChannelKind(id)
    }

    pub fn id(&self) -> (r: u16)
        ensures
            r == self.0,
    {
        self.0
    }
}

/// How the messages of a channel are ordered on arrival.
#[derive(Clone, Copy, Debug, PartialEq, Eq, Structural)]
pub enum ChannelOrdering {
    /// Messages will arrive in the order that they were sent
    Ordered,
    /// Messages will arrive in any order
    Unordered,
    /// Only the newest messages are accepted; older messages are discarded
    Sequenced,
}

/// Ordering and reliability of a channel.
#[derive(Clone, Copy, Debug, PartialEq, Eq, Structural)]
pub enum ChannelMode {
    /// Packets may arrive out of order, or not at all
    UnorderedUnreliable,
    /// Same as unordered unreliable, but only the newest packet is ever
    /// accepted; older packets are ignored
    SequencedUnreliable,
    /// Packets may arrive out of order, but retries and acks make sure that
    /// each one arrives
    UnorderedReliable(ReliableSettings),
    /// Same as unordered reliable, but only the newest packet is delivered
    SequencedReliable(ReliableSettings),
    /// Packets are delivered in the order in which they were sent
    OrderedReliable(ReliableSettings),
}

impl ChannelMode {
    /// The ordering this mode gives.
    pub fn ordering(&self) -> (r: ChannelOrdering)
        ensures
            r == match *self {
                ChannelMode::UnorderedUnreliable => ChannelOrdering::Unordered,
                ChannelMode::SequencedUnreliable => ChannelOrdering::Sequenced,
                ChannelMode::UnorderedReliable(_) => ChannelOrdering::Unordered,
                ChannelMode::SequencedReliable(_) => ChannelOrdering::Sequenced,
                ChannelMode::OrderedReliable(_) => ChannelOrdering::Ordered,
            },
    {
        match self {
            ChannelMode::UnorderedUnreliable => ChannelOrdering::Unordered,
            ChannelMode::SequencedUnreliable => ChannelOrdering::Sequenced,
            ChannelMode::UnorderedReliable(_) => ChannelOrdering::Unordered,
            ChannelMode::SequencedReliable(_) => ChannelOrdering::Sequenced,
            ChannelMode::OrderedReliable(_) => ChannelOrdering::Ordered,
        }
    }

    /// Whether this mode resends until acknowledged.
    pub fn is_reliable(&self) -> (r: bool)
        ensures
            r == !(*self is UnorderedUnreliable || *self is SequencedUnreliable),
    {
        match self {
            ChannelMode::UnorderedUnreliable | ChannelMode::SequencedUnreliable => false,
            _ => true,
        }
    }
}

impl Default for ChannelMode {
    fn default() -> (r: Self)
        ensures
            r == ChannelMode::UnorderedUnreliable,
    {
        ChannelMode::UnorderedUnreliable
    }
}

/// Which side may send on a channel; the connection layer enforces it.
#[derive(Clone, Copy, Debug, PartialEq, Eq, Structural)]
pub enum ChannelDirection {
    ClientToServer,
    ServerToClient,
    Bidirectional,
}

impl Default for ChannelDirection {
    fn default() -> (r: Self)
        ensures
            r == ChannelDirection::Bidirectional,
    {
        ChannelDirection::Bidirectional
    }
}

/// The configuration of a channel.
#[derive(Clone, Copy, Debug, PartialEq, Eq, Structural)]
pub struct ChannelSettings {
    pub mode: ChannelMode,
    pub direction: ChannelDirection,
}

impl Default for ChannelSettings {
    fn default() -> (r: Self)
        ensures
            r.mode == ChannelMode::UnorderedUnreliable,
            r.direction == ChannelDirection::Bidirectional,
    {
        ChannelSettings {
            mode: ChannelMode::UnorderedUnreliable,
            direction: ChannelDirection::Bidirectional,
        }
    }
}

/// The prefix of every packet: the kind of the channel it belongs to.
#[derive(Clone, Copy, Debug, PartialEq, Eq, Structural)]
pub struct ChannelHeader {
    pub kind: ChannelKind,
}

/// The bytes of a packet of channel `kind` whose channel-level bytes are `body`.
pub open spec fn packet_bytes(kind: ChannelKind, body: Seq<u8>) -> Seq<u8> {
    u16_bytes(kind.0) + body
}

/// Reading back a packet that `ChannelHeader::write` made gives the header's
/// kind and the body.
pub proof fn lemma_header_round_trip(kind: ChannelKind, body: Seq<u8>)
    ensures
        packet_bytes(kind, body).len() >= 2,
        u16_of(packet_bytes(kind, body)) == kind.0,
        packet_bytes(kind, body).subrange(2, packet_bytes(kind, body).len() as int) == body,
{
    lemma_u16_round_trip(kind.0, body);
}

impl ChannelHeader {
    /// Puts the header in front of `body`.
    pub fn write(&self, body: &[u8]) -> (r: Vec<u8>)
        ensures
            r@ == packet_bytes(self.kind, body@),
    {
        frame_with_id(self.kind.0, body)
    }

    /// Splits a packet into its header and the bytes after it; a packet too
    /// short to hold a header is a decode error.
    pub fn read(packet: &[u8]) -> (r: Result<(ChannelHeader, Vec<u8>), ChannelError>)
        ensures
            packet@.len() < 2 <==> r is Err,
            r is Err ==> r == Err::<(ChannelHeader, Vec<u8>), _>(ChannelError::DecodeError),
            r matches Ok((h, body)) ==> h.kind.0 == u16_of(packet@) && body@ == packet@.subrange(
                2,
                packet@.len() as int,
            ),
    {
        match split_id(packet) {
            None => Err(ChannelError::DecodeError),
            Some((id, body)) => Ok((ChannelHeader { kind: ChannelKind(id) }, body)),
        }
    }
}

} // verus!
