use vstd::prelude::*;

verus! {

/// An enrollment service that this client is registered with.
#[derive(Debug)]
pub struct Instance {
    pub id: Option<i64>,
    pub name: String,
    pub uuid: String,
    pub url: String,
}

impl Instance {
    pub fn new(name: String, uuid: String, url: String) -> (instance: Self)
        ensures
            instance == (Instance { id: None, name, uuid, url }),
    {
        Instance { id: None, name, uuid, url }
    }
}

/// An instance as listings show it.
#[derive(Debug)]
pub struct InstanceInfo {
    pub id: Option<i64>,
    pub name: String,
    pub uuid: String,
    pub url: String,
    /// Whether one of the instance's locations has a live tunnel.
    pub connected: bool,
    pub pubkey: String,
}

/// The key pair of one instance. The private key never leaves the client.
#[derive(Debug)]
pub struct WireguardKeys {
    pub id: Option<i64>,
    pub instance_id: i64,
    pub pubkey: String,
    pub prvkey: String,
}

impl WireguardKeys {
    pub fn new(instance_id: i64, pubkey: String, prvkey: String) -> (keys: Self)
        ensures
            keys == (WireguardKeys { id: None, instance_id, pubkey, prvkey }),
    {
        WireguardKeys { id: None, instance_id, pubkey, prvkey }
    }
}

} // verus!
