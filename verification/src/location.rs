use vstd::prelude::*;

verus! {

/// Persistent configuration of one tunnel.
#[derive(Debug)]
pub struct Location {
    pub id: Option<i64>,
    pub instance_id: i64,
    /// Identifier of the network on the enrollment service.
    pub network_id: i64,
    pub name: String,
    pub address: String,
    pub pubkey: String,
    pub endpoint: String,
    pub allowed_ips: String,
    pub dns: Option<String>,
    pub route_all_traffic: bool,
}

/// One sample of an interface's counters.
#[derive(Clone, Copy, Debug, PartialEq, Eq, Structural)]
pub struct LocationStats {
    pub id: Option<i64>,
    pub location_id: i64,
    /// Bytes sent.
    pub upload: i64,
    /// Bytes received.
    pub download: i64,
    /// Time of the last handshake with the peer.
    pub last_handshake: i64,
    /// Time at which the sample was taken, in microseconds since the Unix
    /// epoch.
    pub collected_at: i64,
    pub listen_port: u32,
    pub persistent_keepalive_interval: Option<u16>,
}

impl LocationStats {
    /// A sample that has not been stored yet.
    pub fn new(
        location_id: i64,
        upload: i64,
        download: i64,
        last_handshake: i64,
        collected_at: i64,
        listen_port: u32,
        persistent_keepalive_interval: Option<u16>,
    ) -> (sample: Self)
        ensures
            sample == (LocationStats {
                id: None,
                location_id,
                upload,
                download,
                last_handshake,
                collected_at,
                listen_port,
                persistent_keepalive_interval,
            }),
    {
        LocationStats {
            id: None,
            location_id,
            upload,
            download,
            last_handshake,
            collected_at,
            listen_port,
            persistent_keepalive_interval,
        }
    }
}

impl Location {
    /// A location that has not been stored yet: it has no id, no DNS server
    /// and does not route all traffic through the tunnel.
    pub fn new(
        instance_id: i64,
        network_id: i64,
        name: String,
        address: String,
        pubkey: String,
        endpoint: String,
        allowed_ips: String,
    ) -> (location: Self)
        ensures
            location == (Location {
                id: None,
                instance_id,
                network_id,
                name,
                address,
                pubkey,
                endpoint,
                allowed_ips,
                dns: None,
                route_all_traffic: false,
            }),
    {
        Location {
            id: None,
            instance_id,
            network_id,
            name,
            address,
            pubkey,
            endpoint,
            allowed_ips,
            dns: None,
            route_all_traffic: false,
        }
    }
}

impl Clone for Location {
    fn clone(&self) -> (copy: Self)
        ensures
            copy == *self,
    {
        Location {
            id: self.id,
            instance_id: self.instance_id,
            network_id: self.network_id,
            name: self.name.clone(),
            address: self.address.clone(),
            pubkey: self.pubkey.clone(),
            endpoint: self.endpoint.clone(),
            allowed_ips: self.allowed_ips.clone(),
            dns: clone_text(&self.dns),
            route_all_traffic: self.route_all_traffic,
        }
    }
}

/// A copy of an optional text.
pub fn clone_text(text: &Option<String>) -> (copy: Option<String>)
    ensures
        copy == *text,
{
    match text {
        Some(s) => Some(s.clone()),
        None => None,
    }
}

} // verus!
