use vstd::prelude::*;
use tokio_util::sync::CancellationToken;
use crate::cancel::{cancel_token, new_token, share_token};
use crate::clock::now;
use crate::connection::{ActiveConnection, Connection};
use crate::daemon::{
    CreateInterfaceRequest, CreateOutcome, RemoveInterfaceRequest, RemoveOutcome, Reply,
};
use crate::error::Error;
use crate::events::{connection_changed, Notification};
use crate::host::local_address;
use crate::instance::WireguardKeys;
use crate::location::{clone_text, Location};
use crate::naming::{get_interface_name, interface_name, Platform};

verus! {

/// A live tunnel together with the handle that stops its statistics sampler.
struct Entry {
    connection: ActiveConnection,
    sampler: CancellationToken,
}

/// The live tunnels of this process, at most one per location.
pub struct ConnectionRegistry {
    entries: Vec<Entry>,
}

/// What a successful connect hands to its caller: the new connection, the
/// event to publish, and the token that the connection's statistics sampler
/// has to watch.
pub struct Connected {
    pub connection: ActiveConnection,
    pub sampler: CancellationToken,
    pub notification: Notification,
}

/// What a successful disconnect hands to its caller: the record to store and
/// the event to publish.
pub struct Disconnected {
    pub connection: Connection,
    pub notification: Notification,
}

spec fn holds(entries: Seq<Entry>, id: i64) -> bool {
    exists|i: int| 0 <= i < entries.len() && entries[i].connection.location_id == id
}

spec fn slot(entries: Seq<Entry>, id: i64) -> int {
    choose|i: int| 0 <= i < entries.len() && entries[i].connection.location_id == id
}

spec fn distinct(entries: Seq<Entry>) -> bool {
    forall|i: int, j: int|
        0 <= i < j < entries.len() ==> entries[i].connection.location_id
            != entries[j].connection.location_id
}

spec fn connections(entries: Seq<Entry>) -> Map<i64, ActiveConnection> {
    Map::new(|id: i64| holds(entries, id), |id: i64| entries[slot(entries, id)].connection)
}

spec fn tokens(entries: Seq<Entry>) -> Map<i64, CancellationToken> {
    Map::new(|id: i64| holds(entries, id), |id: i64| entries[slot(entries, id)].sampler)
}

proof fn lemma_slot(entries: Seq<Entry>, i: int)
    requires
        distinct(entries),
        0 <= i < entries.len(),
    ensures
        holds(entries, entries[i].connection.location_id),
        slot(entries, entries[i].connection.location_id) == i,
{
}

proof fn lemma_push(entries: Seq<Entry>, entry: Entry)
    requires
        distinct(entries),
        !holds(entries, entry.connection.location_id),
    ensures
        distinct(entries.push(entry)),
        connections(entries.push(entry)) == connections(entries).insert(
            entry.connection.location_id,
            entry.connection,
        ),
        tokens(entries.push(entry)) == tokens(entries).insert(
            entry.connection.location_id,
            entry.sampler,
        ),
{
    let more = entries.push(entry);
    let id = entry.connection.location_id;
    assert(distinct(more)) by {
        assert forall|i: int, j: int|
            0 <= i < j < more.len() implies more[i].connection.location_id
            != more[j].connection.location_id by {
            if j == entries.len() {
                assert(entries[i].connection.location_id != id);
            }
        }
    }
    assert forall|other: i64| holds(more, other) <==> (other == id || holds(entries, other)) by {
        if holds(more, other) {
            let i = slot(more, other);
            if i < entries.len() {
                assert(entries[i].connection.location_id == other);
            }
        }
        if other == id {
            assert(more[entries.len() as int].connection.location_id == id);
        }
        if holds(entries, other) {
            let i = slot(entries, other);
            assert(more[i].connection.location_id == other);
        }
    }
    assert forall|other: i64| holds(more, other) implies more[slot(more, other)] == (if other
        == id {
        entry
    } else {
        entries[slot(entries, other)]
    }) by {
        if other == id {
            lemma_slot(more, entries.len() as int);
        } else {
            let i = slot(entries, other);
            assert(more[i] == entries[i]);
            lemma_slot(more, i);
        }
    }
    assert(connections(more) =~= connections(entries).insert(id, entry.connection));
    assert(tokens(more) =~= tokens(entries).insert(id, entry.sampler));
}

proof fn lemma_remove(entries: Seq<Entry>, at: int)
    requires
        distinct(entries),
        0 <= at < entries.len(),
    ensures
        distinct(entries.remove(at)),
        connections(entries.remove(at)) == connections(entries).remove(
            entries[at].connection.location_id,
        ),
        tokens(entries.remove(at)) == tokens(entries).remove(entries[at].connection.location_id),
{
    let fewer = entries.remove(at);
    let id = entries[at].connection.location_id;
    let back = |i: int| if i < at { i } else { i + 1 };
    assert forall|i: int| 0 <= i < fewer.len() implies fewer[i] == entries[back(i)] by {}
    assert(distinct(fewer)) by {
        assert forall|i: int, j: int|
            0 <= i < j < fewer.len() implies fewer[i].connection.location_id
            != fewer[j].connection.location_id by {
            assert(fewer[i] == entries[back(i)]);
            assert(fewer[j] == entries[back(j)]);
        }
    }
    assert forall|other: i64| holds(fewer, other) <==> (other != id && holds(entries, other)) by {
        if holds(fewer, other) {
            let i = slot(fewer, other);
            assert(fewer[i] == entries[back(i)]);
            if other == id {
                lemma_slot(entries, at);
                lemma_slot(entries, back(i));
            }
        }
        if other != id && holds(entries, other) {
            let i = slot(entries, other);
            if i < at {
                assert(fewer[i] == entries[back(i)]);
            } else {
                assert(fewer[i - 1] == entries[back(i - 1)]);
            }
        }
    }
    assert forall|other: i64| holds(fewer, other) implies fewer[slot(fewer, other)]
        == entries[slot(entries, other)] by {
        let i = slot(fewer, other);
        assert(fewer[i] == entries[back(i)]);
        lemma_slot(entries, back(i));
    }
    assert(connections(fewer) =~= connections(entries).remove(id));
    assert(tokens(fewer) =~= tokens(entries).remove(id));
}

/// Why a connect is refused before the daemon is asked, if it is: the
/// location is unknown, or it has a live tunnel already, or its instance has
/// no keys.
pub open spec fn connect_refusal(has_location: bool, active: bool, has_keys: bool) -> Option<
    Error,
> {
    if !has_location {
        Some(Error::NotFound)
    } else if active {
        Some(Error::Conflict)
    } else if !has_keys {
        Some(Error::NotFound)
    } else {
        None
    }
}

/// Whether `request` asks for the tunnel of `location`, with the keys of its
/// instance, under the name that `platform` gives it.
pub open spec fn is_create_request(
    request: CreateInterfaceRequest,
    location: Location,
    keys: WireguardKeys,
    platform: Platform,
    keepalive: Option<u16>,
) -> bool {
    &&& request.name@ == interface_name(location.name@, platform)
    &&& request.local_address == location.address
    &&& request.own_private_key == keys.prvkey
    &&& request.peer_pubkey == keys.pubkey
    &&& request.peer_endpoint == location.endpoint
    &&& request.allowed_ips == location.allowed_ips
    &&& request.dns == location.dns
    &&& request.keepalive == keepalive
}

/// Why a connect is not recorded once the daemon has answered, if it is not:
/// the daemon did not create the interface, or the location got a live tunnel
/// in the meantime, or this machine's address is unknown.
pub open spec fn record_refusal(
    reply: Reply<CreateOutcome>,
    active: bool,
    has_address: bool,
) -> Option<Error> {
    if !(reply matches Reply::Answered(CreateOutcome::Created)) {
        Some(Error::InternalError)
    } else if active {
        Some(Error::Conflict)
    } else if !has_address {
        Some(Error::InternalError)
    } else {
        None
    }
}

/// Why a disconnect is refused, if it is: the location has no live tunnel, or
/// the daemon did not remove the interface.
pub open spec fn disconnect_refusal(active: bool, reply: Reply<RemoveOutcome>) -> Option<Error> {
    if !active {
        Some(Error::NotFound)
    } else if !(reply matches Reply::Answered(RemoveOutcome::Removed)) {
        Some(Error::InternalError)
    } else {
        None
    }
}

/// The live tunnels after a connect of `location_id` on `state`, where the
/// daemon answered `reply`, the address lookup gave `address` and the clock read
/// `start`.
pub open spec fn after_connect(
    state: Map<i64, ActiveConnection>,
    location_id: i64,
    interface_name: String,
    reply: Reply<CreateOutcome>,
    address: Option<String>,
    start: i64,
) -> Map<i64, ActiveConnection> {
    if record_refusal(reply, state.contains_key(location_id), address is Some) is None {
        state.insert(
            location_id,
            ActiveConnection { location_id, address: address.unwrap(), interface_name, start },
        )
    } else {
        state
    }
}

/// The live tunnels after a disconnect of `location_id` on `state`, where the
/// daemon answered `reply`.
pub open spec fn after_disconnect(
    state: Map<i64, ActiveConnection>,
    location_id: i64,
    reply: Reply<RemoveOutcome>,
) -> Map<i64, ActiveConnection> {
    if disconnect_refusal(state.contains_key(location_id), reply) is None {
        state.remove(location_id)
    } else {
        state
    }
}

/// One call on the registry, with what the world outside answered to it.
pub enum RegistryCall {
    Connect {
        location_id: i64,
        interface_name: String,
        reply: Reply<CreateOutcome>,
        address: Option<String>,
        start: i64,
    },
    Disconnect { location_id: i64, removal: Reply<RemoveOutcome> },
}

/// The live tunnels after one call.
pub open spec fn after_call(state: Map<i64, ActiveConnection>, call: RegistryCall) -> Map<
    i64,
    ActiveConnection,
> {
    match call {
        RegistryCall::Connect { location_id, interface_name, reply, address, start } => {
            after_connect(state, location_id, interface_name, reply, address, start)
        },
        RegistryCall::Disconnect { location_id, removal } => after_disconnect(
            state,
            location_id,
            removal,
        ),
    }
}

/// The live tunnels of a registry that started empty and served `calls` in
/// order.
pub open spec fn after_calls(calls: Seq<RegistryCall>) -> Map<i64, ActiveConnection>
    decreases calls.len(),
{
    if calls.len() == 0 {
        Map::empty()
    } else {
        after_call(after_calls(calls.drop_last()), calls.last())
    }
}

/// Whether the call at position `at` of `calls` is a connect of `location_id`
/// that was recorded.
pub open spec fn connected_by(calls: Seq<RegistryCall>, at: int, location_id: i64) -> bool {
    &&& 0 <= at < calls.len()
    &&& calls[at] matches RegistryCall::Connect { location_id: id, reply, address, .. }
    &&& id == location_id
    &&& record_refusal(
        reply,
        after_calls(calls.take(at)).contains_key(location_id),
        address is Some,
    ) is None
}

/// A location that no call has connected has no live tunnel, whatever else the
/// registry has served, and a disconnect of it is refused with `NotFound`
/// whatever the daemon answers.
pub proof fn lemma_disconnect_never_connected(
    calls: Seq<RegistryCall>,
    location_id: i64,
    reply: Reply<RemoveOutcome>,
)
    requires
        forall|at: int| !connected_by(calls, at, location_id),
    ensures
        !after_calls(calls).contains_key(location_id),
        disconnect_refusal(after_calls(calls).contains_key(location_id), reply) == Some(
            Error::NotFound,
        ),
        after_disconnect(after_calls(calls), location_id, reply) == after_calls(calls),
    decreases calls.len(),
{
    if calls.len() > 0 {
        let before = calls.drop_last();
        assert forall|at: int| !connected_by(before, at, location_id) by {
            if 0 <= at < before.len() {
                assert(before.take(at) == calls.take(at));
                assert(!connected_by(calls, at, location_id));
            }
        }
        lemma_disconnect_never_connected(before, location_id, reply);
        let last = calls.len() - 1;
        assert(calls.take(last) == before);
        assert(!connected_by(calls, last, location_id));
    }
}

/// Two connects of a location, with no disconnect in between, leave it with
/// the one live tunnel that it had after the first. Where the first was
/// recorded, the second is refused: with `Conflict` where the daemon created
/// an interface again, with `InternalError` where it did not.
pub proof fn lemma_connect_twice(
    state: Map<i64, ActiveConnection>,
    location_id: i64,
    first_name: String,
    first_reply: Reply<CreateOutcome>,
    first_address: Option<String>,
    first_start: i64,
    second_name: String,
    second_reply: Reply<CreateOutcome>,
    second_address: Option<String>,
    second_start: i64,
)
    ensures
        ({
            let once = after_connect(
                state,
                location_id,
                first_name,
                first_reply,
                first_address,
                first_start,
            );
            let twice = after_connect(
                once,
                location_id,
                second_name,
                second_reply,
                second_address,
                second_start,
            );
            let recorded = record_refusal(
                first_reply,
                state.contains_key(location_id),
                first_address is Some,
            ) is None;
            &&& once.contains_key(location_id) ==> twice == once
            &&& recorded ==> once.contains_key(location_id) && once[location_id].start
                == first_start
            &&& recorded ==> record_refusal(
                second_reply,
                once.contains_key(location_id),
                second_address is Some,
            ) == Some(
                if second_reply matches Reply::Answered(CreateOutcome::Created) {
                    Error::Conflict
                } else {
                    Error::InternalError
                },
            )
        }),
{
}

/// Connect, disconnect and connect again, each with a daemon that does as
/// asked: the second connect is recorded like the first, with the start time
/// of its own, and the session record that the disconnect made is that of
/// the first session. The two start times differ where the clock has moved
/// between the connects.
pub proof fn lemma_reconnect(
    state: Map<i64, ActiveConnection>,
    location_id: i64,
    first_name: String,
    first_address: String,
    first_start: i64,
    end: i64,
    second_name: String,
    second_address: String,
    second_start: i64,
)
    requires
        !state.contains_key(location_id),
    ensures
        ({
            let created = Reply::Answered(CreateOutcome::Created);
            let removed = Reply::Answered(RemoveOutcome::Removed);
            let connected = after_connect(
                state,
                location_id,
                first_name,
                created,
                Some(first_address),
                first_start,
            );
            let record = Connection::closing(connected[location_id], end);
            let disconnected = after_disconnect(connected, location_id, removed);
            let reconnected = after_connect(
                disconnected,
                location_id,
                second_name,
                created,
                Some(second_address),
                second_start,
            );
            &&& record_refusal(created, state.contains_key(location_id), true) is None
            &&& disconnect_refusal(connected.contains_key(location_id), removed) is None
            &&& record == (Connection {
                id: None,
                location_id,
                interface_name: first_name,
                start: first_start,
                end,
            })
            &&& disconnected == state
            &&& record_refusal(created, disconnected.contains_key(location_id), true) is None
            &&& reconnected[location_id] == (ActiveConnection {
                location_id,
                address: second_address,
                interface_name: second_name,
                start: second_start,
            })
            &&& second_start != first_start ==> reconnected[location_id].start != record.start
        }),
{
    let first = ActiveConnection {
        location_id,
        address: first_address,
        interface_name: first_name,
        start: first_start,
    };
    assert(state.insert(location_id, first).remove(location_id) =~= state);
}

impl View for ConnectionRegistry {
    type V = Map<i64, ActiveConnection>;

    /// The live tunnels by location id.
    closed spec fn view(&self) -> Map<i64, ActiveConnection> {
        connections(self.entries@)
    }
}

impl ConnectionRegistry {
    /// No location has two entries.
    #[verifier::type_invariant]
    spec fn wf(self) -> bool {
        distinct(self.entries@)
    }

    /// The sampler tokens of the live tunnels by location id.
    pub closed spec fn samplers(&self) -> Map<i64, CancellationToken> {
        tokens(self.entries@)
    }

    /// Every live tunnel has a sampler token, and nothing else has; and a
    /// live tunnel is filed under the location that it serves.
    pub proof fn lemma_keys(&self)
        ensures
            self.samplers().dom() == self@.dom(),
            forall|id: i64| self@.contains_key(id) ==> (#[trigger] self@[id]).location_id == id,
    {
        assert(self.samplers().dom() =~= self@.dom());
    }

    /// A registry without live tunnels.
    pub fn new() -> (registry: Self)
        ensures
            registry@ == Map::<i64, ActiveConnection>::empty(),
            registry.samplers() == Map::<i64, CancellationToken>::empty(),
    {
        let registry = ConnectionRegistry { entries: Vec::new() };
        assert(registry@ =~= Map::<i64, ActiveConnection>::empty());
        assert(registry.samplers() =~= Map::<i64, CancellationToken>::empty());
        registry
    }

    fn position(&self, location_id: i64) -> (found: Option<usize>)
        ensures
            found is Some <==> holds(self.entries@, location_id),
            found matches Some(i) ==> i == slot(self.entries@, location_id) && i
                < self.entries@.len(),
    {
        proof {
            use_type_invariant(self);
        }
        let mut i: usize = 0;
        while i < self.entries.len()
            invariant
                distinct(self.entries@),
                i <= self.entries@.len(),
                forall|k: int|
                    0 <= k < i ==> self.entries@[k].connection.location_id != location_id,
            decreases self.entries@.len() - i,
        {
            if self.entries[i].connection.location_id == location_id {
                proof {
                    lemma_slot(self.entries@, i as int);
                }
                return Some(i);
            }
            i += 1;
        }
        None
    }

    /// Whether a location has a live tunnel.
    pub fn is_active(&self, location_id: i64) -> (active: bool)
        ensures
            active == self@.contains_key(location_id),
    {
        self.position(location_id).is_some()
    }

    /// The live tunnel of a location, if it has one.
    pub fn find(&self, location_id: i64) -> (found: Option<ActiveConnection>)
        ensures
            found == self@.get(location_id),
            found matches Some(connection) ==> connection.location_id == location_id,
    {
        match self.position(location_id) {
            Some(i) => Some(self.entries[i].connection.clone()),
            None => None,
        }
    }

    /// The ids of the locations that have a live tunnel, each once.
    pub fn list_active_ids(&self) -> (ids: Vec<i64>)
        ensures
            ids@.no_duplicates(),
            ids@.to_set() == self@.dom(),
    {
        proof {
            use_type_invariant(self);
        }
        let mut ids: Vec<i64> = Vec::new();
        let mut i: usize = 0;
        while i < self.entries.len()
            invariant
                distinct(self.entries@),
                i <= self.entries@.len(),
                ids@.len() == i,
                forall|k: int| 0 <= k < i ==> ids@[k] == self.entries@[k].connection.location_id,
            decreases self.entries@.len() - i,
        {
            ids.push(self.entries[i].connection.location_id);
            i += 1;
        }
        proof {
            assert forall|id: i64| ids@.to_set().contains(id) <==> self@.dom().contains(id) by {
                if ids@.to_set().contains(id) {
                    let k = choose|k: int| 0 <= k < ids@.len() && ids@[k] == id;
                    assert(self.entries@[k].connection.location_id == id);
                }
                if self@.dom().contains(id) {
                    let k = slot(self.entries@, id);
                    assert(ids@[k] == id);
                }
            }
            assert(ids@.to_set() =~= self@.dom());
        }
        ids
    }

    /// First step of a connect. Decides whether the daemon is to be asked for
    /// the tunnel of location `location_id`, and with what. `location` and
    /// `keys` are what storage holds for the location and for its instance.
    pub fn prepare_connect(
        &self,
        location_id: i64,
        location: Option<&Location>,
        keys: Option<&WireguardKeys>,
        platform: &Platform,
        keepalive: Option<u16>,
    ) -> (plan: Result<CreateInterfaceRequest, Error>)
        ensures
            plan matches Err(error) ==> connect_refusal(
                location is Some,
                self@.contains_key(location_id),
                keys is Some,
            ) == Some(error),
            plan matches Ok(request) ==> connect_refusal(
                location is Some,
                self@.contains_key(location_id),
                keys is Some,
            ) is None && is_create_request(
                request,
                *location.unwrap(),
                *keys.unwrap(),
                *platform,
                keepalive,
            ),
    {
        let location = match location {
            Some(location) => location,
            None => {
                return Err(Error::NotFound);
            },
        };
        if self.position(location_id).is_some() {
            return Err(Error::Conflict);
        }
        let keys = match keys {
            Some(keys) => keys,
            None => {
                return Err(Error::NotFound);
            },
        };
        Ok(
            CreateInterfaceRequest {
                name: get_interface_name(location, platform),
                local_address: location.address.clone(),
                own_private_key: keys.prvkey.clone(),
                peer_pubkey: keys.pubkey.clone(),
                peer_endpoint: location.endpoint.clone(),
                allowed_ips: location.allowed_ips.clone(),
                dns: clone_text(&location.dns),
                keepalive,
            },
        )
    }

    /// Records the tunnel that the daemon was asked for, given this machine's
    /// address and the time. Nothing is recorded unless the daemon created the
    /// interface, the location has no live tunnel and the address is known.
    pub fn record_connection(
        &mut self,
        location_id: i64,
        interface_name: String,
        reply: Reply<CreateOutcome>,
        address: Option<String>,
        start: i64,
    ) -> (result: Result<Connected, Error>)
        ensures
            final(self)@ == after_connect(
                old(self)@,
                location_id,
                interface_name,
                reply,
                address,
                start,
            ),
            result matches Err(error) ==> record_refusal(
                reply,
                old(self)@.contains_key(location_id),
                address is Some,
            ) == Some(error) && *final(self) == *old(self),
            result matches Ok(connected) ==> {
                &&& record_refusal(reply, old(self)@.contains_key(location_id), address is Some)
                    is None
                &&& connected.connection == (ActiveConnection {
                    location_id,
                    address: address.unwrap(),
                    interface_name,
                    start,
                })
                &&& final(self)@ == old(self)@.insert(location_id, connected.connection)
                &&& final(self).samplers() == old(self).samplers().insert(
                    location_id,
                    connected.sampler,
                )
                &&& connected.notification.topic@ == "connection-changed"@
                &&& connected.notification.message@ == "Created new connection"@
            },
    {
        match reply {
            Reply::Answered(CreateOutcome::Created) => {},
            _ => {
                return Err(Error::InternalError);
            },
        }
        if self.position(location_id).is_some() {
            return Err(Error::Conflict);
        }
        let address = match address {
            Some(address) => address,
            None => {
                return Err(Error::InternalError);
            },
        };
        let connection = ActiveConnection::new(location_id, address, interface_name, start);
        let sampler = new_token();
        let entry = Entry { connection: connection.clone(), sampler: share_token(&sampler) };
        proof {
            use_type_invariant(&*self);
            lemma_push(self.entries@, entry);
        }
        // The entries change outside the registry, which so never holds two
        // entries of one location.
        let mut entries: Vec<Entry> = Vec::new();
        std::mem::swap(&mut self.entries, &mut entries);
        entries.push(entry);
        self.entries = entries;
        Ok(Connected { connection, sampler, notification: connection_changed() })
    }

    /// Second step of a connect: takes the daemon's answer to the request
    /// that `prepare_connect` made. Where the daemon created the interface,
    /// looks up this machine's address and the time and records the tunnel.
    pub fn connect(
        &mut self,
        location_id: i64,
        interface_name: String,
        reply: Reply<CreateOutcome>,
    ) -> (result: Result<Connected, Error>)
        ensures
            record_refusal(reply, old(self)@.contains_key(location_id), true) is Some
                ==> result is Err,
            result matches Err(error) ==> record_refusal(
                reply,
                old(self)@.contains_key(location_id),
                false,
            ) == Some(error) && *final(self) == *old(self),
            result matches Ok(connected) ==> {
                &&& connected.connection.location_id == location_id
                &&& connected.connection.interface_name == interface_name
                &&& connected.connection.start >= 0
                &&& final(self)@ == old(self)@.insert(location_id, connected.connection)
                &&& final(self).samplers() == old(self).samplers().insert(
                    location_id,
                    connected.sampler,
                )
                &&& connected.notification.topic@ == "connection-changed"@
                &&& connected.notification.message@ == "Created new connection"@
            },
    {
        match reply {
            Reply::Answered(CreateOutcome::Created) => {
                if self.is_active(location_id) {
                    return Err(Error::Conflict);
                }
                let address = local_address();
                let start: i64 = now();
                self.record_connection(location_id, interface_name, reply, address, start)
            },
            _ => Err(Error::InternalError),
        }
    }

    /// First step of a disconnect: the request that asks the daemon to tear
    /// the location's interface down, or `NotFound` where the location has no
    /// live tunnel.
    pub fn prepare_disconnect(&self, location_id: i64) -> (plan: Result<
        RemoveInterfaceRequest,
        Error,
    >)
        ensures
            plan is Ok <==> self@.contains_key(location_id),
            plan matches Err(error) ==> error == Error::NotFound,
            plan matches Ok(request) ==> request.interface_name
                == self@[location_id].interface_name,
    {
        match self.position(location_id) {
            Some(i) => Ok(
                RemoveInterfaceRequest {
                    interface_name: self.entries[i].connection.interface_name.clone(),
                },
            ),
            None => Err(Error::NotFound),
        }
    }

    /// Closes the session of a location at time `end`, given the daemon's
    /// answer. The live tunnel stays unless the daemon removed the interface;
    /// where it leaves, its sampler is told to stop and the record of the
    /// session is handed out.
    pub fn close_connection(
        &mut self,
        location_id: i64,
        reply: Reply<RemoveOutcome>,
        end: i64,
    ) -> (result: Result<Disconnected, Error>)
        ensures
            final(self)@ == after_disconnect(old(self)@, location_id, reply),
            result matches Err(error) ==> disconnect_refusal(
                old(self)@.contains_key(location_id),
                reply,
            ) == Some(error) && *final(self) == *old(self),
            result matches Ok(disconnected) ==> {
                &&& disconnect_refusal(old(self)@.contains_key(location_id), reply) is None
                &&& disconnected.connection == Connection::closing(old(self)@[location_id], end)
                &&& final(self)@ == old(self)@.remove(location_id)
                &&& final(self).samplers() == old(self).samplers().remove(location_id)
                &&& disconnected.notification.topic@ == "connection-changed"@
                &&& disconnected.notification.message@ == "Created new connection"@
            },
    {
        let at = match self.position(location_id) {
            Some(at) => at,
            None => {
                return Err(Error::NotFound);
            },
        };
        match reply {
            Reply::Answered(RemoveOutcome::Removed) => {},
            _ => {
                return Err(Error::InternalError);
            },
        }
        proof {
            use_type_invariant(&*self);
            lemma_remove(self.entries@, at as int);
        }
        let mut entries: Vec<Entry> = Vec::new();
        std::mem::swap(&mut self.entries, &mut entries);
        let entry = entries.remove(at);
        self.entries = entries;
        cancel_token(&entry.sampler);
        Ok(
            Disconnected {
                connection: Connection::close(entry.connection, end),
                notification: connection_changed(),
            },
        )
    }

    /// Second step of a disconnect: takes the daemon's answer to the request
    /// that `prepare_disconnect` made and closes the session at the present
    /// time.
    pub fn disconnect(&mut self, location_id: i64, reply: Reply<RemoveOutcome>) -> (result: Result<
        Disconnected,
        Error,
    >)
        ensures
            final(self)@ == after_disconnect(old(self)@, location_id, reply),
            result matches Err(error) ==> disconnect_refusal(
                old(self)@.contains_key(location_id),
                reply,
            ) == Some(error) && *final(self) == *old(self),
            result matches Ok(disconnected) ==> {
                &&& disconnect_refusal(old(self)@.contains_key(location_id), reply) is None
                &&& disconnected.connection.end >= 0
                &&& disconnected.connection == Connection::closing(
                    old(self)@[location_id],
                    disconnected.connection.end,
                )
                &&& final(self)@ == old(self)@.remove(location_id)
                &&& final(self).samplers() == old(self).samplers().remove(location_id)
                &&& disconnected.notification.topic@ == "connection-changed"@
                &&& disconnected.notification.message@ == "Created new connection"@
            },
    {
        let end: i64 = now();
        self.close_connection(location_id, reply, end)
    }
}

} // verus!
