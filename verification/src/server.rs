//! The serving side: a registration source paired with the instance it
//! advertises. The transport, the signal handling and the registration task
//! live outside this crate; they take the server apart with
//! [`Server::into_parts`].

use vstd::prelude::*;

use crate::common::ServiceInstance;

verus! {

/// A server about to listen: how it registers itself, and the instance
/// record it advertises and binds to.
pub struct Server<R> {
    register: R,
    server_instance: ServiceInstance,
}

impl<R> Server<R> {
    /// The registration source the server was built with.
    pub closed spec fn register(&self) -> R {
        self.register
    }

    /// The instance the server advertises.
    pub closed spec fn instance(&self) -> ServiceInstance {
        self.server_instance
    }

    /// Pairs a registration source with the instance to advertise.
    pub fn new(register: R, server_instance: ServiceInstance) -> (r: Server<R>)
        ensures
            r.register() == register,
            r.instance() == server_instance,
    {
        Server { register, server_instance }
    }

    /// Hands the registration source and the instance back, for whoever
    /// binds the transport and spawns the registration loop.
    pub fn into_parts(self) -> (r: (R, ServiceInstance))
        ensures
            r.0 == self.register(),
            r.1 == self.instance(),
    {
        (self.register, self.server_instance)
    }
}

} // verus!
