use vstd::prelude::*;
use vstd::string::StringExecFns;
use tokio_util::sync::CancellationToken;
use crate::clock::{now, parse_utc, parsed_utc, HOUR};
use crate::connection::ActiveConnection;
use crate::error::Error;
use crate::events::{location_updated, log_topic, log_topic_of, Notification};
use crate::instance::{Instance, InstanceInfo, WireguardKeys};
use crate::location::{Location, LocationStats};
use crate::log_watcher::{LogLevel, LogWatcherRegistry};
use crate::naming::{get_interface_name, interface_name, Platform};
use crate::registry::ConnectionRegistry;
use crate::stats::{aggregate, aggregated};

verus! {

/// A location as listings show it.
#[derive(Debug)]
pub struct LocationInfo {
    pub id: i64,
    pub instance_id: i64,
    pub name: String,
    pub address: String,
    pub endpoint: String,
    pub active: bool,
    pub route_all_traffic: bool,
}

/// The listing entry of a stored location, given whether it has a live tunnel.
pub open spec fn location_info_of(location: Location, active: bool) -> LocationInfo {
    LocationInfo {
        id: location.id.unwrap(),
        instance_id: location.instance_id,
        name: location.name,
        address: location.address,
        endpoint: location.endpoint,
        active,
        route_all_traffic: location.route_all_traffic,
    }
}

/// Lists the stored locations of an instance, marking those with a live
/// tunnel as active.
pub fn all_locations(locations: &Vec<Location>, registry: &ConnectionRegistry) -> (listing: Vec<
    LocationInfo,
>)
    requires
        forall|i: int| 0 <= i < locations@.len() ==> (#[trigger] locations@[i]).id is Some,
    ensures
        listing@.len() == locations@.len(),
        forall|i: int|
            0 <= i < locations@.len() ==> #[trigger] listing@[i] == location_info_of(
                locations@[i],
                registry@.contains_key(locations@[i].id.unwrap()),
            ),
{
    let mut listing: Vec<LocationInfo> = Vec::new();
    let mut i: usize = 0;
    while i < locations.len()
        invariant
            i <= locations@.len(),
            forall|k: int| 0 <= k < locations@.len() ==> (#[trigger] locations@[k]).id is Some,
            listing@.len() == i,
            forall|k: int|
                0 <= k < i ==> #[trigger] listing@[k] == location_info_of(
                    locations@[k],
                    registry@.contains_key(locations@[k].id.unwrap()),
                ),
        decreases locations@.len() - i,
    {
        let location = &locations[i];
        let id: i64 = location.id.unwrap();
        listing.push(
            LocationInfo {
                id,
                instance_id: location.instance_id,
                name: location.name.clone(),
                address: location.address.clone(),
                endpoint: location.endpoint.clone(),
                active: registry.is_active(id),
                route_all_traffic: location.route_all_traffic,
            },
        );
        i += 1;
    }
    listing
}

/// What storage holds of one instance: the instance, its locations and its
/// key pair.
#[derive(Debug)]
pub struct InstanceRecord {
    pub instance: Instance,
    pub locations: Vec<Location>,
    pub keys: Option<WireguardKeys>,
}

/// Whether one of the locations is stored and has a live tunnel.
pub open spec fn any_active(locations: Seq<Location>, active: Set<i64>) -> bool {
    exists|i: int|
        0 <= i < locations.len() && (#[trigger] locations[i]).id is Some && active.contains(
            locations[i].id.unwrap(),
        )
}

/// The listing entry of a stored instance that has keys.
pub open spec fn instance_info_of(record: InstanceRecord, active: Set<i64>) -> InstanceInfo {
    InstanceInfo {
        id: record.instance.id,
        name: record.instance.name,
        uuid: record.instance.uuid,
        url: record.instance.url,
        connected: any_active(record.locations@, active),
        pubkey: record.keys.unwrap().pubkey,
    }
}

/// The listing of the instances that are stored, in order.
pub open spec fn instance_listing(records: Seq<InstanceRecord>, active: Set<i64>) -> Seq<
    InstanceInfo,
> {
    records.filter(|record: InstanceRecord| record.instance.id is Some).map_values(
        |record: InstanceRecord| instance_info_of(record, active),
    )
}

/// Whether a stored instance has no key pair.
pub open spec fn lacks_keys(records: Seq<InstanceRecord>) -> bool {
    exists|i: int|
        0 <= i < records.len() && (#[trigger] records[i]).instance.id is Some && records[i].keys
            is None
}

fn has_live_tunnel(locations: &Vec<Location>, registry: &ConnectionRegistry) -> (connected: bool)
    ensures
        connected == any_active(locations@, registry@.dom()),
{
    let mut i: usize = 0;
    while i < locations.len()
        invariant
            i <= locations@.len(),
            forall|k: int|
                0 <= k < i ==> !((#[trigger] locations@[k]).id is Some
                    && registry@.dom().contains(locations@[k].id.unwrap())),
        decreases locations@.len() - i,
    {
        match locations[i].id {
            Some(id) => {
                if registry.is_active(id) {
                    return true;
                }
            },
            None => {},
        }
        i += 1;
    }
    false
}

/// Lists the instances. An instance that is not stored is left out; a stored
/// one is connected where one of its locations has a live tunnel. `NotFound`
/// where a stored instance has no key pair.
pub fn all_instances(records: &Vec<InstanceRecord>, registry: &ConnectionRegistry) -> (listing:
    Result<Vec<InstanceInfo>, Error>)
    ensures
        listing is Err <==> lacks_keys(records@),
        listing matches Err(error) ==> error == Error::NotFound,
        listing matches Ok(infos) ==> infos@ == instance_listing(records@, registry@.dom()),
{
    let mut infos: Vec<InstanceInfo> = Vec::new();
    let ghost stored = |record: InstanceRecord| record.instance.id is Some;
    let ghost info = |record: InstanceRecord| instance_info_of(record, registry@.dom());
    let mut i: usize = 0;
    while i < records.len()
        invariant
            i <= records@.len(),
            stored == (|record: InstanceRecord| record.instance.id is Some),
            info == (|record: InstanceRecord| instance_info_of(record, registry@.dom())),
            !lacks_keys(records@.take(i as int)),
            infos@ == records@.take(i as int).filter(stored).map_values(info),
        decreases records@.len() - i,
    {
        let record = &records[i];
        proof {
            let seen = records@.take(i as int);
            assert(records@.take(i + 1) == seen.push(*record));
            seen.lemma_filter_push(*record, stored);
            assert(seen.filter(stored).push(*record).map_values(info) == seen.filter(
                stored,
            ).map_values(info).push(info(*record)));
        }
        if record.instance.id.is_some() {
            let keys = match &record.keys {
                Some(keys) => keys,
                None => {
                    proof {
                        assert(records@[i as int].instance.id is Some);
                    }
                    return Err(Error::NotFound);
                },
            };
            infos.push(
                InstanceInfo {
                    id: record.instance.id,
                    name: record.instance.name.clone(),
                    uuid: record.instance.uuid.clone(),
                    url: record.instance.url.clone(),
                    connected: has_live_tunnel(&record.locations, registry),
                    pubkey: keys.pubkey.clone(),
                },
            );
        }
        proof {
            let next = records@.take(i + 1);
            if lacks_keys(next) {
                let k = choose|k: int|
                    0 <= k < next.len() && (#[trigger] next[k]).instance.id is Some && next[k].keys
                        is None;
                if k < i {
                    assert(records@.take(i as int)[k] == next[k]);
                }
            }
        }
        i += 1;
    }
    proof {
        assert(records@.take(records@.len() as int) == records@);
    }
    Ok(infos)
}

/// The configuration of a location's interface and of its peer, with the
/// latest reading of the interface.
#[derive(Debug)]
pub struct LocationInterfaceDetails {
    pub location_id: i64,
    /// Name of the interface.
    pub name: String,
    /// Public key of the client's interface.
    pub pubkey: String,
    /// Address assigned to the client inside the tunnel.
    pub address: String,
    pub dns: Option<String>,
    pub listen_port: u32,
    pub peer_pubkey: String,
    pub peer_endpoint: String,
    pub allowed_ips: String,
    pub persistent_keepalive_interval: Option<u16>,
    pub last_handshake: i64,
}

/// Why the details of a location's interface are not given, if they are not:
/// the location or its instance's keys are unknown, or storage holds no
/// sample of the location yet.
pub open spec fn details_refusal(has_location: bool, has_keys: bool, has_sample: bool) -> Option<
    Error,
> {
    if !has_location || !has_keys {
        Some(Error::NotFound)
    } else if !has_sample {
        Some(Error::Database)
    } else {
        None
    }
}

/// Describes the interface of location `location_id`. `location` and `keys`
/// are what storage holds for the location and for its instance, `latest` is
/// the newest sample of the location.
pub fn location_interface_details(
    location_id: i64,
    location: Option<Location>,
    keys: Option<WireguardKeys>,
    latest: Option<LocationStats>,
    platform: &Platform,
) -> (details: Result<LocationInterfaceDetails, Error>)
    ensures
        details matches Err(error) ==> details_refusal(
            location is Some,
            keys is Some,
            latest is Some,
        ) == Some(error),
        details matches Ok(found) ==> {
            &&& details_refusal(location is Some, keys is Some, latest is Some) is None
            &&& found.location_id == location_id
            &&& found.name@ == interface_name(location.unwrap().name@, *platform)
            &&& found.pubkey == location.unwrap().pubkey
            &&& found.address == location.unwrap().address
            &&& found.dns == location.unwrap().dns
            &&& found.listen_port == latest.unwrap().listen_port
            &&& found.peer_pubkey == keys.unwrap().pubkey
            &&& found.peer_endpoint == location.unwrap().endpoint
            &&& found.allowed_ips == location.unwrap().allowed_ips
            &&& found.persistent_keepalive_interval
                == latest.unwrap().persistent_keepalive_interval
            &&& found.last_handshake == latest.unwrap().last_handshake
        },
{
    let location = match location {
        Some(location) => location,
        None => {
            return Err(Error::NotFound);
        },
    };
    let keys = match keys {
        Some(keys) => keys,
        None => {
            return Err(Error::NotFound);
        },
    };
    let latest = match latest {
        Some(latest) => latest,
        None => {
            return Err(Error::Database);
        },
    };
    let name = get_interface_name(&location, platform);
    Ok(
        LocationInterfaceDetails {
            location_id,
            name,
            pubkey: location.pubkey,
            address: location.address,
            dns: location.dns,
            listen_port: latest.listen_port,
            peer_pubkey: keys.pubkey,
            peer_endpoint: location.endpoint,
            allowed_ips: location.allowed_ips,
            persistent_keepalive_interval: latest.persistent_keepalive_interval,
            last_handshake: latest.last_handshake,
        },
    )
}

/// The live tunnel of a stored location, if it has one; `NotFound` where
/// storage holds no such location.
pub fn active_connection(location: Option<&Location>, registry: &ConnectionRegistry) -> (found:
    Result<Option<ActiveConnection>, Error>)
    requires
        location matches Some(stored) ==> stored.id is Some,
    ensures
        location is None ==> found == Err::<Option<ActiveConnection>, Error>(Error::NotFound),
        location matches Some(stored) ==> found == Ok::<Option<ActiveConnection>, Error>(
            registry@.get(stored.id.unwrap()),
        ),
{
    match location {
        Some(stored) => Ok(registry.find(stored.id.unwrap())),
        None => Err(Error::NotFound),
    }
}

/// Sets whether a location routes all traffic through its tunnel. Gives the
/// location to store and the event to publish; `NotFound` where storage holds
/// no such location.
pub fn update_location_routing(location: Option<Location>, route_all_traffic: bool) -> (updated:
    Result<(Location, Notification), Error>)
    ensures
        updated is Ok <==> location is Some,
        updated matches Err(error) ==> error == Error::NotFound,
        updated matches Ok(pair) ==> {
            &&& pair.0 == (Location { route_all_traffic, ..location.unwrap() })
            &&& pair.1.topic@ == "location-update"@
            &&& pair.1.message@ == "Location routing updated"@
        },
{
    match location {
        Some(stored) => {
            let mut stored = stored;
            stored.route_all_traffic = route_all_traffic;
            Ok((stored, location_updated()))
        },
        None => Err(Error::NotFound),
    }
}

/// Granularity at which stored samples are grouped.
#[derive(Clone, Copy, Debug, PartialEq, Eq, Structural)]
pub enum DateTimeAggregation {
    Hour,
    Second,
}

impl DateTimeAggregation {
    /// The format string that truncates a timestamp to this granularity.
    pub open spec fn format(self) -> Seq<char> {
        match self {
            DateTimeAggregation::Hour => "%Y-%m-%d %H:00:00"@,
            DateTimeAggregation::Second => "%Y-%m-%d %H:%M:%S"@,
        }
    }

    /// Returns the database format string for this aggregation.
    #[must_use]
    pub fn fstring(&self) -> (format: String)
        ensures
            format@ == self.format(),
    {
        match self {
            DateTimeAggregation::Hour => String::from_str("%Y-%m-%d %H:00:00"),
            DateTimeAggregation::Second => String::from_str("%Y-%m-%d %H:%M:%S"),
        }
    }
}

/// The shortest period that is shown by the hour: eight hours, in
/// microseconds.
pub const HOURLY_FROM: i64 = 28_800_000_000;

/// The granularity for a period that starts at `from` and ends at `now`: by
/// the hour from eight hours on, by the second below that. A period that
/// starts in the future is an error.
pub open spec fn aggregation_at(from: i64, now: i64) -> Result<DateTimeAggregation, Error> {
    if now - from >= HOURLY_FROM {
        Ok(DateTimeAggregation::Hour)
    } else if now - from < 0 {
        Err(Error::InternalError)
    } else {
        Ok(DateTimeAggregation::Second)
    }
}

/// Chooses the granularity for a period that starts at `from` and ends at
/// `now`.
pub fn aggregation_for(from: i64, now: i64) -> (aggregation: Result<DateTimeAggregation, Error>)
    ensures
        aggregation == aggregation_at(from, now),
{
    if from > now {
        Err(Error::InternalError)
    } else if from > i64::MAX - HOURLY_FROM {
        Ok(DateTimeAggregation::Second)
    } else if now >= from + HOURLY_FROM {
        Ok(DateTimeAggregation::Hour)
    } else {
        Ok(DateTimeAggregation::Second)
    }
}

/// Chooses the granularity for a period that starts at `from` and ends at
/// the present time.
pub fn get_aggregation(from: i64) -> (aggregation: Result<DateTimeAggregation, Error>)
    ensures
        exists|now: i64| now >= 0 && aggregation == #[trigger] aggregation_at(from, now),
{
    let now: i64 = now();
    let aggregation = aggregation_for(from, now);
    assert(aggregation == aggregation_at(from, now));
    aggregation
}

/// A period of exactly eight hours is shown by the hour, one of a minute
/// less by the second, and one that starts a minute from now is an error.
pub proof fn lemma_aggregation_threshold(from: i64, now: i64)
    ensures
        now - from == HOURLY_FROM ==> aggregation_at(from, now) == Ok::<
            DateTimeAggregation,
            Error,
        >(DateTimeAggregation::Hour),
        now - from == HOURLY_FROM - 60_000_000 ==> aggregation_at(from, now) == Ok::<
            DateTimeAggregation,
            Error,
        >(DateTimeAggregation::Second),
        from - now == 60_000_000 ==> aggregation_at(from, now) == Err::<
            DateTimeAggregation,
            Error,
        >(Error::InternalError),
{
}

/// What a caller gave as the start of a period: nothing, a text that is no
/// timestamp, or a timestamp.
pub open spec fn given_start(from: Option<String>) -> Option<Option<i64>> {
    match from {
        Some(text) => Some(parsed_utc(text@)),
        None => None,
    }
}

/// The start of a period: the timestamp given, or one hour before `now`
/// where none was given. A text that is no timestamp is an error, and so is a
/// start that no `i64` holds.
pub open spec fn start_at(given: Option<Option<i64>>, now: i64) -> Result<i64, Error> {
    match given {
        Some(Some(from)) => Ok(from),
        Some(None) => Err(Error::Datetime),
        None => if now - HOUR >= i64::MIN {
            Ok((now - HOUR) as i64)
        } else {
            Err(Error::Datetime)
        },
    }
}

/// Settles the start of a period from what was given and the time.
pub fn start_for(given: Option<Option<i64>>, now: i64) -> (start: Result<i64, Error>)
    ensures
        start == start_at(given, now),
{
    match given {
        Some(Some(from)) => Ok(from),
        Some(None) => Err(Error::Datetime),
        None => {
            if now >= i64::MIN + HOUR {
                Ok(now - HOUR)
            } else {
                Err(Error::Datetime)
            }
        },
    }
}

/// Reads the text with which a caller gives the start of a period.
fn read_start(from: &Option<String>) -> (given: Option<Option<i64>>)
    ensures
        given == given_start(*from),
{
    match from {
        Some(text) => {
            match parse_utc(text.as_str()) {
                Ok(micros) => Some(Some(micros)),
                Err(_) => Some(None),
            }
        },
        None => None,
    }
}

/// If `from` holds a text, reads it as a timestamp, else gives the time one
/// hour ago. Timestamps are microseconds since the Unix epoch.
pub fn parse_timestamp(from: Option<String>) -> (start: Result<i64, Error>)
    ensures
        exists|now: i64| now >= 0 && start == #[trigger] start_at(given_start(from), now),
        from is Some ==> start == start_at(given_start(from), 0),
{
    let given = read_start(&from);
    let now: i64 = if given.is_none() {
        now()
    } else {
        0
    };
    let start = start_for(given, now);
    assert(start == start_at(given_start(from), now));
    start
}

/// The aggregated samples of a location for the period that starts where
/// `given` says and ends at `now`.
pub open spec fn location_stats_at(
    rows: Seq<LocationStats>,
    location_id: i64,
    given: Option<Option<i64>>,
    now: i64,
) -> Result<Seq<LocationStats>, Error> {
    match start_at(given, now) {
        Err(error) => Err(error),
        Ok(from) => if from < i64::MIN + HOUR {
            Err(Error::Datetime)
        } else {
            match aggregation_at(from, now) {
                Err(error) => Err(error),
                Ok(aggregation) => Ok(aggregated(rows, location_id, from, now, aggregation)),
            }
        },
    }
}

/// Whether what a command hands out is what it should.
pub open spec fn agrees(
    stats: Result<Vec<LocationStats>, Error>,
    expected: Result<Seq<LocationStats>, Error>,
) -> bool {
    match stats {
        Ok(points) => expected == Ok::<Seq<LocationStats>, Error>(points@),
        Err(error) => expected == Err::<Seq<LocationStats>, Error>(error),
    }
}

/// Aggregates the samples of a location among `rows` for the period that
/// starts where `given` says and ends at `now`.
pub fn location_stats_for(
    rows: &Vec<LocationStats>,
    location_id: i64,
    given: Option<Option<i64>>,
    now: i64,
) -> (stats: Result<Vec<LocationStats>, Error>)
    ensures
        agrees(stats, location_stats_at(rows@, location_id, given, now)),
{
    let from: i64 = match start_for(given, now) {
        Ok(from) => from,
        Err(error) => {
            return Err(error);
        },
    };
    if from < i64::MIN + HOUR {
        return Err(Error::Datetime);
    }
    match aggregation_for(from, now) {
        Ok(aggregation) => Ok(aggregate(rows, location_id, from, now, aggregation)),
        Err(error) => Err(error),
    }
}

/// Aggregates the samples of a location among `rows` for the period that
/// starts at the timestamp that `from` holds, or one hour ago where it holds
/// none, and ends now.
pub fn location_stats(rows: &Vec<LocationStats>, location_id: i64, from: Option<String>) -> (stats:
    Result<Vec<LocationStats>, Error>)
    ensures
        exists|now: i64|
            now >= 0 && agrees(
                stats,
                #[trigger] location_stats_at(rows@, location_id, given_start(from), now),
            ),
{
    let given = read_start(&from);
    let now: i64 = now();
    let stats = location_stats_for(rows, location_id, given, now);
    assert(agrees(stats, location_stats_at(rows@, location_id, given_start(from), now)));
    stats
}

/// What the task that watches an interface's log is started with.
pub struct LogWatch {
    /// The topic on which the lines are published.
    pub topic: String,
    pub interface_name: String,
    /// The least severe level that is passed on.
    pub level: LogLevel,
    /// The time from which on lines are passed on; where there is none, the
    /// watch starts at the end of the log.
    pub from: Option<i64>,
    /// The token that stops the task.
    pub token: CancellationToken,
    /// The token of the watcher that was replaced, which has been cancelled.
    pub replaced: Option<CancellationToken>,
}

/// The time from which a log watch passes lines on: the timestamp that the
/// caller gave, or none where the caller gave none or a text that is no
/// timestamp.
pub open spec fn watch_start(from: Option<String>) -> Option<i64> {
    match from {
        Some(text) => parsed_utc(text@),
        None => None,
    }
}

/// Registers a log watcher for the interface of a stored location, with the
/// start time already read. The watcher that served the interface before is
/// cancelled and replaced. `NotFound` where storage holds no such location.
pub fn watch_interface(
    watchers: &mut LogWatcherRegistry,
    location: Option<&Location>,
    from: Option<i64>,
    level: LogLevel,
    platform: &Platform,
) -> (started: Result<LogWatch, Error>)
    ensures
        started is Ok <==> location is Some,
        started matches Err(error) ==> error == Error::NotFound && *final(watchers) == *old(
            watchers,
        ),
        started matches Ok(watch) ==> {
            &&& watch.interface_name@ == interface_name(location.unwrap().name@, *platform)
            &&& watch.topic@ == log_topic_of(watch.interface_name@)
            &&& watch.level == level
            &&& watch.from == from
            &&& final(watchers)@ == old(watchers)@.insert(watch.interface_name@, watch.token)
            &&& watch.replaced == old(watchers)@.get(watch.interface_name@)
        },
{
    let location = match location {
        Some(location) => location,
        None => {
            return Err(Error::NotFound);
        },
    };
    let interface_name = get_interface_name(location, platform);
    let topic = log_topic(interface_name.as_str());
    let registered = watchers.start(interface_name.clone());
    Ok(
        LogWatch {
            topic,
            interface_name,
            level,
            from,
            token: registered.token,
            replaced: registered.replaced,
        },
    )
}

/// Starts a log watch for the interface of a stored location. `from` may
/// hold the timestamp from which on lines are wanted; a text that is no
/// timestamp counts as none. The result names the topic to listen on and
/// holds what the watcher task needs.
pub fn get_interface_logs(
    watchers: &mut LogWatcherRegistry,
    location: Option<&Location>,
    from: Option<String>,
    level: LogLevel,
    platform: &Platform,
) -> (started: Result<LogWatch, Error>)
    ensures
        started is Ok <==> location is Some,
        started matches Err(error) ==> error == Error::NotFound && *final(watchers) == *old(
            watchers,
        ),
        started matches Ok(watch) ==> {
            &&& watch.interface_name@ == interface_name(location.unwrap().name@, *platform)
            &&& watch.topic@ == log_topic_of(watch.interface_name@)
            &&& watch.level == level
            &&& watch.from == watch_start(from)
            &&& final(watchers)@ == old(watchers)@.insert(watch.interface_name@, watch.token)
            &&& watch.replaced == old(watchers)@.get(watch.interface_name@)
        },
{
    let start = match read_start(&from) {
        Some(Some(micros)) => Some(micros),
        _ => None,
    };
    watch_interface(watchers, location, start, level, platform)
}

/// Stops the log watch of the interface of a stored location: its watcher is
/// cancelled and leaves the registry. `NotFound` where storage holds no such
/// location or the interface has no watcher.
pub fn stop_interface_logs(
    watchers: &mut LogWatcherRegistry,
    location: Option<&Location>,
    platform: &Platform,
) -> (stopped: Result<(), Error>)
    ensures
        stopped is Ok <==> location is Some && old(watchers)@.contains_key(
            interface_name(location.unwrap().name@, *platform),
        ),
        stopped matches Err(error) ==> error == Error::NotFound && *final(watchers) == *old(
            watchers,
        ),
        stopped is Ok ==> final(watchers)@ == old(watchers)@.remove(
            interface_name(location.unwrap().name@, *platform),
        ),
{
    let location = match location {
        Some(location) => location,
        None => {
            return Err(Error::NotFound);
        },
    };
    let interface_name = get_interface_name(location, platform);
    match watchers.stop(&interface_name) {
        Ok(_) => Ok(()),
        Err(error) => Err(error),
    }
}

} // verus!
