//! The discovering client: a discovery source paired with the capacity of
//! the balanced channel its changes will feed. The channel itself and the
//! watch task live outside this crate; they take the client apart with
//! [`Client::into_parts`].

use vstd::prelude::*;

verus! {

/// A client about to open a balanced channel: where membership comes from,
/// and how many pending changes the channel may queue.
pub struct Client<D> {
    discovery: D,
    balance_channel_capacity: usize,
}

impl<D> Client<D> {
    /// The discovery source the client was built with.
    pub closed spec fn discovery(&self) -> D {
        self.discovery
    }

    /// The backing queue capacity of the balanced channel.
    pub closed spec fn capacity(&self) -> usize {
        self.balance_channel_capacity
    }

    /// Pairs a discovery source with a channel capacity.
    pub fn new(discovery: D, balance_channel_capacity: usize) -> (r: Client<D>)
        ensures
            r.discovery() == discovery,
            r.capacity() == balance_channel_capacity,
    {
        Client { discovery, balance_channel_capacity }
    }

    /// Hands the discovery source and the capacity back, for whoever opens
    /// the channel: seeding, then watching, both against the same sink.
    pub fn into_parts(self) -> (r: (D, usize))
        ensures
            r.0 == self.discovery(),
            r.1 == self.capacity(),
    {
        (self.discovery, self.balance_channel_capacity)
    }
}

} // verus!
