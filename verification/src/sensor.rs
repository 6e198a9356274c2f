//! The descriptor a sensor announces in its heartbeat.

use vstd::prelude::*;
use crate::topic::nats_subject_of;

verus! {

/// A poll interval, in milliseconds.
pub type PollInterval = u64;

/// Everything a sensor declares about itself: identity, where to ask it for
/// a reading, where it answers, and metadata.  Created on the first valid
/// heartbeat and immutable for the life of the session.
pub struct SensorDescriptor {
    pub alias: String,
    /// Globally unique identity, as the 128-bit value of the sensor's UUID.
    pub id: u128,
    pub poll_interval: PollInterval,
    /// The provider publishes a poll request here.
    pub poll_topic: String,
    /// The sensor publishes its reading here; unique per sensor because the
    /// sensors' transport has no native reply addressing.
    pub read_topic: String,
    /// Reserved; not consumed by the core.
    pub disconnect_topic: String,
    /// Network identity, carried only as metadata.
    pub ip_addr: String,
    pub mac_addr: [u8; 6],
    pub location: String,
}

impl Clone for SensorDescriptor {
    fn clone(&self) -> (r: Self)
        ensures
            r == *self,
    {
        SensorDescriptor {
            alias: self.alias.clone(),
            id: self.id,
            poll_interval: self.poll_interval,
            poll_topic: self.poll_topic.clone(),
            read_topic: self.read_topic.clone(),
            disconnect_topic: self.disconnect_topic.clone(),
            ip_addr: self.ip_addr.clone(),
            mac_addr: self.mac_addr,
            location: self.location.clone(),
        }
    }
}

/// `d` is `raw` with its three topic names translated into the bus's
/// dot-delimited subject syntax and everything else kept.
pub open spec fn normalized_from(d: SensorDescriptor, raw: SensorDescriptor) -> bool {
    &&& d.alias == raw.alias
    &&& d.id == raw.id
    &&& d.poll_interval == raw.poll_interval
    &&& d.poll_topic@ == nats_subject_of(raw.poll_topic@)
    &&& d.read_topic@ == nats_subject_of(raw.read_topic@)
    &&& d.disconnect_topic@ == nats_subject_of(raw.disconnect_topic@)
    &&& d.ip_addr == raw.ip_addr
    &&& d.mac_addr == raw.mac_addr
    &&& d.location == raw.location
}

/// Translates the topic names a heartbeat declared into bus subjects.
pub fn normalize_descriptor(raw: SensorDescriptor) -> (d: SensorDescriptor)
    ensures
        normalized_from(d, raw),
{
    let SensorDescriptor {
        alias,
        id,
        poll_interval,
        poll_topic,
        read_topic,
        disconnect_topic,
        ip_addr,
        mac_addr,
        location,
    } = raw;
    SensorDescriptor {
        alias,
        id,
        poll_interval,
        poll_topic: crate::topic::mqtt_to_nats(poll_topic),
        read_topic: crate::topic::mqtt_to_nats(read_topic),
        disconnect_topic: crate::topic::mqtt_to_nats(disconnect_topic),
        ip_addr,
        mac_addr,
        location,
    }
}

} // verus!
