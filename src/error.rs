use vstd::prelude::*;

verus! {

/// What can go wrong when routing, building or decoding on a channel.
#[derive(Clone, Copy, Debug, PartialEq, Eq, Structural)]
pub enum ChannelError {
    /// No channel of this kind was registered.
    UnknownChannelKind,
    /// A channel of this kind was already registered.
    DuplicateChannelKind,
    /// A packet's header or metadata could not be read.
    DecodeError,
}

} // verus!
