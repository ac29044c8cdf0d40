use vstd::prelude::*;
use vstd::string::StringExecFns;

verus! {

/// An event for the subscribers of the notification channel.
#[derive(Debug)]
pub struct Notification {
    pub topic: String,
    pub message: String,
}

/// The event that follows every change of the set of live tunnels.
pub fn connection_changed() -> (event: Notification)
    ensures
        event.topic@ == "connection-changed"@,
        event.message@ == "Created new connection"@,
{
    Notification {
        topic: String::from_str("connection-changed"),
        message: String::from_str("Created new connection"),
    }
}

/// The event that follows a change of a location's routing.
pub fn location_updated() -> (event: Notification)
    ensures
        event.topic@ == "location-update"@,
        event.message@ == "Location routing updated"@,
{
    Notification {
        topic: String::from_str("location-update"),
        message: String::from_str("Location routing updated"),
    }
}

/// The event that follows the enrollment of an instance. It carries no message.
pub fn instance_updated() -> (event: Notification)
    ensures
        event.topic@ == "instance-update"@,
        event.message@ == Seq::<char>::empty(),
{
    Notification { topic: String::from_str("instance-update"), message: String::new() }
}

/// The topic on which the log lines of one interface are published.
pub open spec fn log_topic_of(interface_name: Seq<char>) -> Seq<char> {
    "log-update-"@ + interface_name
}

/// The topic on which the log lines of `interface_name` are published.
pub fn log_topic(interface_name: &str) -> (topic: String)
    ensures
        topic@ == log_topic_of(interface_name@),
{
    String::from_str("log-update-").concat(interface_name)
}

} // verus!
