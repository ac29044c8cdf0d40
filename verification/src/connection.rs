use vstd::prelude::*;

verus! {

/// A live tunnel. It exists in memory only, from the moment the interface is
/// up until the location is disconnected.
#[derive(Debug)]
pub struct ActiveConnection {
    pub location_id: i64,
    /// Address of this machine in the local network.
    pub address: String,
    pub interface_name: String,
    /// Start of the session, in microseconds since the Unix epoch.
    pub start: i64,
}

impl ActiveConnection {
    pub fn new(location_id: i64, address: String, interface_name: String, start: i64) -> (active:
        Self)
        ensures
            active == (ActiveConnection { location_id, address, interface_name, start }),
    {
        ActiveConnection { location_id, address, interface_name, start }
    }
}

impl Clone for ActiveConnection {
    fn clone(&self) -> (copy: Self)
        ensures
            copy == *self,
    {
        ActiveConnection {
            location_id: self.location_id,
            address: self.address.clone(),
            interface_name: self.interface_name.clone(),
            start: self.start,
        }
    }
}

/// The record of a completed session.
#[derive(Debug)]
pub struct Connection {
    pub id: Option<i64>,
    pub location_id: i64,
    pub interface_name: String,
    /// Start of the session, in microseconds since the Unix epoch.
    pub start: i64,
    /// The moment the record was made, in microseconds since the Unix epoch.
    pub end: i64,
}

impl Connection {
    /// The record of the session that `active` was, closed at `end`.
    pub open spec fn closing(active: ActiveConnection, end: i64) -> Connection {
        Connection {
            id: None,
            location_id: active.location_id,
            interface_name: active.interface_name,
            start: active.start,
            end,
        }
    }

    /// Turns a live tunnel into the record of its session.
    pub fn close(active: ActiveConnection, end: i64) -> (record: Self)
        ensures
            record == Self::closing(active, end),
    {
        Connection {
            id: None,
            location_id: active.location_id,
            interface_name: active.interface_name,
            start: active.start,
            end,
        }
    }
}

impl Clone for Connection {
    fn clone(&self) -> (copy: Self)
        ensures
            copy == *self,
    {
        Connection {
            id: self.id,
            location_id: self.location_id,
            interface_name: self.interface_name.clone(),
            start: self.start,
            end: self.end,
        }
    }
}

} // verus!
