use vstd::prelude::*;
use crate::error::Error;
use crate::instance::{Instance, WireguardKeys};
use crate::location::{clone_text, Location};

verus! {

/// A device as the enrollment service describes it.
#[derive(Debug)]
pub struct Device {
    pub id: i64,
    pub name: String,
    pub pubkey: String,
    pub user_id: i64,
    pub created_at: i64,
}

/// The tunnel configuration that the enrollment service issues for one network.
#[derive(Debug)]
pub struct DeviceConfig {
    pub network_id: i64,
    pub network_name: String,
    pub config: String,
    pub endpoint: String,
    pub assigned_ip: String,
    pub pubkey: String,
    pub allowed_ips: String,
    pub dns: Option<String>,
}

/// The location that a device configuration describes, owned by
/// `instance_id`. The assigned IP becomes the location's address; the location
/// is not stored yet and does not route all traffic.
pub open spec fn location_of(config: DeviceConfig, instance_id: i64) -> Location {
    Location {
        id: None,
        instance_id,
        network_id: config.network_id,
        name: config.network_name,
        address: config.assigned_ip,
        pubkey: config.pubkey,
        endpoint: config.endpoint,
        allowed_ips: config.allowed_ips,
        dns: config.dns,
        route_all_traffic: false,
    }
}

/// Turns a device configuration into the location it describes.
#[must_use]
pub fn device_config_to_location(device_config: DeviceConfig, instance_id: i64) -> (location:
    Location)
    ensures
        location == location_of(device_config, instance_id),
{
    Location {
        id: None,
        instance_id,
        network_id: device_config.network_id,
        name: device_config.network_name,
        address: device_config.assigned_ip,
        pubkey: device_config.pubkey,
        endpoint: device_config.endpoint,
        allowed_ips: device_config.allowed_ips,
        dns: device_config.dns,
        route_all_traffic: false,
    }
}

/// An instance as the enrollment service describes it; `id` is its UUID.
#[derive(Debug)]
pub struct InstanceResponse {
    pub id: String,
    pub name: String,
    pub url: String,
}

/// What the enrollment service answers when a device is created.
#[derive(Debug)]
pub struct CreateDeviceResponse {
    pub instance: InstanceResponse,
    pub configs: Vec<DeviceConfig>,
    pub device: Device,
}

/// What is stored once a device configuration has been saved.
#[derive(Debug)]
pub struct SaveDeviceConfigResponse {
    pub locations: Vec<Location>,
    pub instance: Instance,
}

/// The instance that an enrollment answer describes, not stored yet.
pub fn new_instance(response: InstanceResponse) -> (instance: Instance)
    ensures
        instance == (Instance {
            id: None,
            name: response.name,
            uuid: response.id,
            url: response.url,
        }),
{
    Instance::new(response.name, response.id, response.url)
}

/// Whether a location is the one that `instance_id` has for `network_id`.
pub open spec fn serves(location: Location, instance_id: i64, network_id: i64) -> bool {
    location.instance_id == instance_id && location.network_id == network_id
}

/// Whether no instance has two locations for one network.
pub open spec fn one_per_network(table: Seq<Location>) -> bool {
    forall|i: int, j: int|
        0 <= i < j < table.len() ==> !serves(
            #[trigger] table[i],
            (#[trigger] table[j]).instance_id,
            table[j].network_id,
        )
}

/// The position of the first location that `instance_id` has for
/// `network_id`, if there is one.
pub open spec fn network_slot(table: Seq<Location>, instance_id: i64, network_id: i64) -> Option<
    int,
> {
    if exists|i: int| 0 <= i < table.len() && serves(#[trigger] table[i], instance_id, network_id) {
        Some(
            choose|i: int|
                0 <= i < table.len() && serves(#[trigger] table[i], instance_id, network_id)
                    && forall|k: int| 0 <= k < i ==> !serves(
                    #[trigger] table[k],
                    instance_id,
                    network_id,
                ),
        )
    } else {
        None
    }
}

/// A stored location with what a newer configuration says of its network:
/// name, address, public key, endpoint and allowed IPs. Identity, DNS and
/// routing stay.
pub open spec fn refreshed(stored: Location, config: DeviceConfig) -> Location {
    Location {
        id: stored.id,
        instance_id: stored.instance_id,
        network_id: stored.network_id,
        name: config.network_name,
        address: config.assigned_ip,
        pubkey: config.pubkey,
        endpoint: config.endpoint,
        allowed_ips: config.allowed_ips,
        dns: stored.dns,
        route_all_traffic: stored.route_all_traffic,
    }
}

/// The table after one configuration of `instance_id` has been applied: the
/// location of its network is refreshed where there is one, else a new
/// location is added at the end.
pub open spec fn upsert(table: Seq<Location>, config: DeviceConfig, instance_id: i64) -> Seq<
    Location,
> {
    match network_slot(table, instance_id, config.network_id) {
        Some(at) => table.update(at, refreshed(table[at], config)),
        None => table.push(location_of(config, instance_id)),
    }
}

/// The table after the configurations have been applied in order.
pub open spec fn upsert_all(table: Seq<Location>, configs: Seq<DeviceConfig>, instance_id: i64)
    -> Seq<Location>
    decreases configs.len(),
{
    if configs.len() == 0 {
        table
    } else {
        upsert(upsert_all(table, configs.drop_last(), instance_id), configs.last(), instance_id)
    }
}

proof fn lemma_first_slot(table: Seq<Location>, instance_id: i64, network_id: i64, at: int)
    requires
        0 <= at < table.len(),
        serves(table[at], instance_id, network_id),
        forall|k: int|
            0 <= k < at ==> !serves(#[trigger] table[k], instance_id, network_id),
    ensures
        network_slot(table, instance_id, network_id) == Some(at),
{
}

/// Applying a configuration keeps a table in which no instance has two
/// locations for one network in that state.
pub proof fn lemma_upsert_one_per_network(
    table: Seq<Location>,
    config: DeviceConfig,
    instance_id: i64,
)
    requires
        one_per_network(table),
    ensures
        one_per_network(upsert(table, config, instance_id)),
{
    let after = upsert(table, config, instance_id);
    match network_slot(table, instance_id, config.network_id) {
        Some(at) => {
            assert forall|i: int, j: int| 0 <= i < j < after.len() implies !serves(
                #[trigger] after[i],
                (#[trigger] after[j]).instance_id,
                after[j].network_id,
            ) by {
                assert(after[i].instance_id == table[i].instance_id);
                assert(after[i].network_id == table[i].network_id);
                assert(after[j].instance_id == table[j].instance_id);
                assert(after[j].network_id == table[j].network_id);
                assert(!serves(table[i], table[j].instance_id, table[j].network_id));
            }
        },
        None => {
            assert forall|i: int, j: int| 0 <= i < j < after.len() implies !serves(
                #[trigger] after[i],
                (#[trigger] after[j]).instance_id,
                after[j].network_id,
            ) by {
                if j == table.len() {
                    assert(after[i] == table[i]);
                    assert(!serves(table[i], instance_id, config.network_id));
                } else {
                    assert(after[i] == table[i]);
                    assert(after[j] == table[j]);
                }
            }
        },
    }
}

/// Applying configurations one after another keeps a table in which no
/// instance has two locations for one network in that state.
pub proof fn lemma_upsert_all_one_per_network(
    table: Seq<Location>,
    configs: Seq<DeviceConfig>,
    instance_id: i64,
)
    requires
        one_per_network(table),
    ensures
        one_per_network(upsert_all(table, configs, instance_id)),
    decreases configs.len(),
{
    if configs.len() > 0 {
        lemma_upsert_all_one_per_network(table, configs.drop_last(), instance_id);
        lemma_upsert_one_per_network(
            upsert_all(table, configs.drop_last(), instance_id),
            configs.last(),
            instance_id,
        );
    }
}

fn find_network(table: &Vec<Location>, instance_id: i64, network_id: i64) -> (found: Option<usize>)
    ensures
        found matches Some(at) ==> network_slot(table@, instance_id, network_id) == Some(
            at as int,
        ) && at < table@.len(),
        found is None ==> network_slot(table@, instance_id, network_id) is None,
{
    let mut i: usize = 0;
    while i < table.len()
        invariant
            i <= table@.len(),
            forall|k: int| 0 <= k < i ==> !serves(#[trigger] table@[k], instance_id, network_id),
        decreases table@.len() - i,
    {
        if table[i].instance_id == instance_id && table[i].network_id == network_id {
            proof {
                lemma_first_slot(table@, instance_id, network_id, i as int);
            }
            return Some(i);
        }
        i += 1;
    }
    None
}

/// Applies configurations of `instance_id` to a table of locations, in
/// order.
fn apply_configs(table: Vec<Location>, configs: Vec<DeviceConfig>, instance_id: i64) -> (after: Vec<
    Location,
>)
    ensures
        after@ == upsert_all(table@, configs@, instance_id),
{
    let ghost before = table@;
    let ghost all = configs@;
    let mut table = table;
    for config in it: configs
        invariant
            it.seq() == all,
            table@ == upsert_all(before, all.take(it.index()), instance_id),
    {
        proof {
            assert(all.take(it.index() + 1).drop_last() == all.take(it.index()));
            assert(all.take(it.index() + 1).last() == config);
        }
        match find_network(&table, instance_id, config.network_id) {
            Some(at) => {
                let stored = &table[at];
                let merged = Location {
                    id: stored.id,
                    instance_id: stored.instance_id,
                    network_id: stored.network_id,
                    name: config.network_name,
                    address: config.assigned_ip,
                    pubkey: config.pubkey,
                    endpoint: config.endpoint,
                    allowed_ips: config.allowed_ips,
                    dns: clone_text(&stored.dns),
                    route_all_traffic: stored.route_all_traffic,
                };
                table.set(at, merged);
            },
            None => {
                table.push(device_config_to_location(config, instance_id));
            },
        }
    }
    proof {
        assert(all.take(all.len() as int) == all);
    }
    table
}

/// The rows that belong to a freshly stored instance.
#[derive(Debug)]
pub struct DeviceRows {
    pub keys: WireguardKeys,
    pub locations: Vec<Location>,
}

/// The rows to store for an instance that has just been stored itself: its
/// key pair, made of the device's public key and the private key, and the
/// locations that the configurations describe. Where several configurations
/// name one network, the instance gets one location for it, which holds what
/// the last of them says.
pub fn save_device_config(
    private_key: String,
    configs: Vec<DeviceConfig>,
    device: Device,
    instance: &Instance,
) -> (rows: DeviceRows)
    requires
        instance.id is Some,
    ensures
        rows.keys == (WireguardKeys {
            id: None,
            instance_id: instance.id.unwrap(),
            pubkey: device.pubkey,
            prvkey: private_key,
        }),
        rows.locations@ == upsert_all(Seq::empty(), configs@, instance.id.unwrap()),
        one_per_network(rows.locations@),
{
    let instance_id: i64 = instance.id.unwrap();
    let keys = WireguardKeys::new(instance_id, device.pubkey, private_key);
    proof {
        lemma_upsert_all_one_per_network(Seq::empty(), configs@, instance_id);
    }
    let locations = apply_configs(Vec::new(), configs, instance_id);
    DeviceRows { keys, locations }
}

/// What an update of an instance leaves to be stored.
#[derive(Debug)]
pub struct InstanceUpdate {
    pub instance: Instance,
    pub locations: Vec<Location>,
}

/// Re-provisions an instance. `instance` is what storage holds under
/// `instance_id`, and `locations` are the stored locations. The instance
/// takes the name and URL of the answer, and each configuration refreshes the
/// location that the instance has for its network or adds one. `NotFound`
/// where storage holds no such instance.
pub fn update_instance(
    instance_id: i64,
    instance: Option<Instance>,
    locations: Vec<Location>,
    response: CreateDeviceResponse,
) -> (update: Result<InstanceUpdate, Error>)
    ensures
        update is Ok <==> instance is Some,
        update matches Err(error) ==> error == Error::NotFound,
        update matches Ok(stored) ==> {
            &&& stored.instance == (Instance {
                id: instance.unwrap().id,
                name: response.instance.name,
                uuid: instance.unwrap().uuid,
                url: response.instance.url,
            })
            &&& stored.locations@ == upsert_all(locations@, response.configs@, instance_id)
            &&& one_per_network(locations@) ==> one_per_network(stored.locations@)
        },
{
    let instance = match instance {
        Some(instance) => instance,
        None => {
            return Err(Error::NotFound);
        },
    };
    let instance = Instance {
        id: instance.id,
        name: response.instance.name,
        uuid: instance.uuid,
        url: response.instance.url,
    };
    proof {
        if one_per_network(locations@) {
            lemma_upsert_all_one_per_network(locations@, response.configs@, instance_id);
        }
    }
    let table = apply_configs(locations, response.configs, instance_id);
    Ok(InstanceUpdate { instance, locations: table })
}

} // verus!
