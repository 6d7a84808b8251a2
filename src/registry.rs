use vstd::prelude::*;

use crate::channel::{ChannelKind, ChannelSettings};
use crate::container::{fresh_receiver, fresh_sender, ChannelContainer};
use crate::error::ChannelError;

verus! {

/// Something that builds the container of one channel.
pub trait ChannelBuilder {
    fn build(&self) -> (r: ChannelContainer)
        ensures
            r.wf(),
    ;
}

impl ChannelBuilder for ChannelSettings {
    /// A container whose sender and receiver are those these settings call for.
    fn build(&self) -> (r: ChannelContainer) {
        ChannelContainer::new(*self)
    }
}

/// The settings registered for `kind` among `entries`, the latest one first
/// looked at.
pub open spec fn lookup(entries: Seq<(ChannelKind, ChannelSettings)>, kind: ChannelKind) -> Option<
    ChannelSettings,
>
    decreases entries.len(),
{
    if entries.len() == 0 {
        None
    } else if entries.last().0 == kind {
        Some(entries.last().1)
    } else {
        lookup(entries.drop_last(), kind)
    }
}

/// Maps each registered channel kind to the settings its containers are built
/// from. Filled at startup, read-only afterwards.
pub struct ChannelRegistry {
    entries: Vec<(ChannelKind, ChannelSettings)>,
}

impl ChannelRegistry {
    /// The settings registered for `kind`, if any.
    pub closed spec fn registered(&self, kind: ChannelKind) -> Option<ChannelSettings> {
        lookup(self.entries@, kind)
    }

    pub fn new() -> (r: Self)
        ensures
            forall|k: ChannelKind| r.registered(k) is None,
    {
        ChannelRegistry { entries: Vec::new() }
    }

    /// The settings registered for `kind`, if any.
    pub fn get(&self, kind: ChannelKind) -> (r: Option<ChannelSettings>)
        ensures
            r == self.registered(kind),
    {
        let mut i: usize = self.entries.len();
        assert(self.entries@.subrange(0, i as int) =~= self.entries@);
        while i > 0
            invariant
                0 <= i <= self.entries@.len(),
                lookup(self.entries@, kind) == lookup(self.entries@.subrange(0, i as int), kind),
            decreases i,
        {
            let e = self.entries[i - 1];
            assert(self.entries@.subrange(0, i as int).drop_last() =~= self.entries@.subrange(
                0,
                i - 1,
            ));
            if e.0.0 == kind.0 {
                return Some(e.1);
            }
            i -= 1;
        }
        None
    }

    /// Registers `kind` with the settings to build its channels from; a kind
    /// registered before is refused and the registry is left as it was.
    pub fn register(&mut self, kind: ChannelKind, settings: ChannelSettings) -> (r: Result<
        (),
        ChannelError,
    >)
        ensures
            old(self).registered(kind) is Some <==> r is Err,
            r is Err ==> r == Err::<(), _>(ChannelError::DuplicateChannelKind) && forall|
                k: ChannelKind,
            | final(self).registered(k) == old(self).registered(k),
            r is Ok ==> forall|k: ChannelKind|
                #[trigger] final(self).registered(k) == if k == kind {
                    Some(settings)
                } else {
                    old(self).registered(k)
                },
    {
        match self.get(kind) {
            Some(_) => Err(ChannelError::DuplicateChannelKind),
            None => {
                self.entries.push((kind, settings));
                assert forall|k: ChannelKind|
                    #[trigger] self.registered(k) == if k == kind {
                        Some(settings)
                    } else {
                        old(self).registered(k)
                    } by {
                    assert(self.entries@.drop_last() =~= old(self).entries@);
                }
                Ok(())
            },
        }
    }

    /// Builds a container for a registered kind.
    pub fn build(&self, kind: ChannelKind) -> (r: Result<ChannelContainer, ChannelError>)
        ensures
            self.registered(kind) is None <==> r is Err,
            r is Err ==> r matches Err(ChannelError::UnknownChannelKind),
            r matches Ok(c) ==> {
                &&& Some(c.settings_spec()) == self.registered(kind)
                &&& c.wf()
                &&& fresh_sender(c.sender_spec())
                &&& fresh_receiver(c.receiver_spec())
            },
    {
        match self.get(kind) {
            None => Err(ChannelError::UnknownChannelKind),
            Some(settings) => Ok(ChannelContainer::new(settings)),
        }
    }
}

} // verus!
