//! DMA channel handles.
use vstd::prelude::*;

verus! {

/// A DMA channel, known by its index among the chip's channels.
pub trait Channel: Sized {
    spec fn spec_id(&self) -> u8;

    fn id(&self) -> (r: u8)
        ensures
            r == self.spec_id(),
    ;

    /// Forget which channel type this is, keeping its index, so that
    /// channels of different types can share one type.
    fn degrade(self) -> (r: AnyChannel)
        ensures
            r.id == self.spec_id(),
    {
        AnyChannel { id: self.id() }
    }
}

/// A channel of any index.
#[derive(Clone, Copy, PartialEq, Eq, Debug, Structural)]
pub struct AnyChannel {
    pub id: u8,
}

impl AnyChannel {
    pub fn new(id: u8) -> (r: Self)
        ensures
            r.id == id,
    {
        AnyChannel { id }
    }
}

impl Channel for AnyChannel {
    open spec fn spec_id(&self) -> u8 {
        self.id
    }

    fn id(&self) -> (r: u8) {
        self.id
    }
}

/// Stands in for a channel where a driver is to work without DMA.
#[derive(Clone, Copy, PartialEq, Eq, Debug, Structural)]
pub struct NoDma;

} // verus!
