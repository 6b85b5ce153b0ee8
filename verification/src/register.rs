//! Registration: the configuration a server runs from, and the decisions of
//! the lease keep-alive loop. The loop itself suspends on store calls and
//! timers and therefore runs outside this crate; it feeds every
//! acknowledgement to [`observer_step`] and obeys the returned action.

use vstd::prelude::*;

use crate::codec::{encode_instance, spec_encode};
use crate::common::ServiceInstance;
use crate::strutil::{spec_split_commas, split_commas};

verus! {

/// Connection settings for the coordination store.
pub struct EtcdConf {
    /// Comma-separated `host:port` list.
    pub hosts: String,
    /// Optional user name for authentication.
    pub user: Option<String>,
    /// Optional password for authentication.
    pub pass: Option<String>,
}

impl EtcdConf {
    /// The individual hosts of the comma-separated `hosts` field, in order.
    pub fn host_list(&self) -> (r: Vec<String>)
        ensures
            r@.map_values(|p: String| p@) == spec_split_commas(self.hosts@),
    {
        split_commas(self.hosts.as_str())
    }
}

/// What a server needs to advertise itself: its identity and endpoint, and
/// where the coordination store lives.
pub struct ServerConf {
    pub server_name: String,
    pub model: String,
    pub endpoint: String,
    pub etcd_conf: EtcdConf,
}

impl ServerConf {
    /// The `host:port` this server binds and advertises.
    pub fn get_endpoint(&self) -> (r: &str)
        ensures
            r@ == self.endpoint@,
    {
        self.endpoint.as_str()
    }

    /// The server's own name, the second half of the service name.
    pub fn get_server_name(&self) -> (r: &str)
        ensures
            r@ == self.server_name@,
    {
        self.server_name.as_str()
    }

    /// The namespace, the first half of the service name.
    pub fn get_model(&self) -> (r: &str)
        ensures
            r@ == self.model@,
    {
        self.model.as_str()
    }

    /// The coordination-store settings.
    pub fn get_etcd_conf(&self) -> (r: &EtcdConf)
        ensures
            r == &self.etcd_conf,
    {
        &self.etcd_conf
    }
}

/// How long the refresher sleeps between keep-alive heartbeats: half the
/// lease TTL, in milliseconds, so a heartbeat may be lost without the lease
/// expiring.
pub fn keep_alive_interval_millis(ttl: i64) -> (r: u64)
    requires
        0 < ttl,
        1000 * ttl <= i64::MAX,
    ensures
        r == 500 * ttl,
{
    (1000 * ttl / 2) as u64
}

/// What the keep-alive acknowledgement stream handed the observer.
pub enum KeepAliveEvent {
    /// An acknowledgement carrying the lease's remaining TTL in seconds.
    Ack { remaining_ttl: i64 },
    /// The stream ended: the store side is gone.
    StreamEnded,
}

/// What the observer does next.
#[derive(Debug, PartialEq, Eq, Structural)]
pub enum ObserverAction {
    /// Keep reading acknowledgements; the lease is alive.
    KeepWaiting,
    /// Cancel the refresher and return from registration.
    StopRegistration,
}

/// The observer's decision for one acknowledgement: registration stops
/// exactly when the lease has run out or the stream has ended.
pub fn observer_step(event: &KeepAliveEvent) -> (r: ObserverAction)
    ensures
        r == ObserverAction::StopRegistration <==> (match event {
            KeepAliveEvent::Ack { remaining_ttl } => remaining_ttl <= 0,
            KeepAliveEvent::StreamEnded => true,
        }),
{
    match event {
        KeepAliveEvent::Ack { remaining_ttl } => {
            if *remaining_ttl <= 0 {
                ObserverAction::StopRegistration
            } else {
                ObserverAction::KeepWaiting
            }
        },
        KeepAliveEvent::StreamEnded => ObserverAction::StopRegistration,
    }
}

/// The store entry that registration writes under the lease: the instance's
/// own key, and its encoding as the value. Whoever decodes the value gets
/// the instance back (see the codec's round-trip law).
pub fn registration_entry(inst: &ServiceInstance) -> (r: (String, String))
    ensures
        r.0@ == inst@.key,
        r.1@ == spec_encode(inst@),
{
    (inst.key.clone(), encode_instance(inst))
}

} // verus!
