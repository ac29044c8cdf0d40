use defguard_client::commands::{get_interface_logs, stop_interface_logs, watch_interface};
use defguard_client::error::Error;
use defguard_client::location::Location;
use defguard_client::log_watcher::{
    LogLevel, LogLine, LogWatcherRegistry, ReadEvent, ServiceLogWatcher, WatcherAction,
    WatcherState,
};
use defguard_client::naming::Platform;
use tokio_util::sync::CancellationToken;

fn named(name: &str) -> Location {
    let mut location = Location::new(
        1,
        2,
        name.to_string(),
        String::new(),
        String::new(),
        String::new(),
        String::new(),
    );
    location.id = Some(1);
    location
}

fn line(interface: Option<&str>, level: LogLevel, timestamp: i64) -> LogLine {
    LogLine {
        timestamp,
        level,
        interface: interface.map(|name| name.to_string()),
        message: format!("message at {timestamp}"),
    }
}

fn watcher(token: CancellationToken, from: Option<i64>) -> ServiceLogWatcher {
    ServiceLogWatcher::new(
        token,
        "log-update-wg0".to_string(),
        "wg0".to_string(),
        LogLevel::Info,
        from,
    )
}

fn emitted(action: WatcherAction) -> Option<i64> {
    match action {
        WatcherAction::Emit(line) => Some(line.timestamp),
        _ => None,
    }
}

#[test]
fn levels_are_ranked_by_severity() {
    let levels =
        [LogLevel::Trace, LogLevel::Debug, LogLevel::Info, LogLevel::Warn, LogLevel::Error];
    for (i, level) in levels.iter().enumerate() {
        for (j, least) in levels.iter().enumerate() {
            assert_eq!(level.at_least(*least), i >= j);
        }
    }
}

#[test]
fn second_watch_cancels_the_first() {
    let mut registry = LogWatcherRegistry::new();
    let first = registry.start("wg0".to_string());
    assert!(first.replaced.is_none());
    assert!(!first.token.is_cancelled());
    let other = registry.start("wg1".to_string());
    assert!(other.replaced.is_none());
    let second = registry.start("wg0".to_string());
    assert!(first.token.is_cancelled());
    assert!(second.replaced.unwrap().is_cancelled());
    assert!(!second.token.is_cancelled());
    assert!(!other.token.is_cancelled());
    assert!(registry.is_watched(&"wg0".to_string()));
    let stopped = registry.stop(&"wg0".to_string()).unwrap();
    assert!(stopped.is_cancelled());
    assert!(second.token.is_cancelled());
    assert_eq!(registry.stop(&"wg0".to_string()).err(), Some(Error::NotFound));
}

#[test]
fn first_watcher_is_silent_once_the_second_is_registered() {
    let mut registry = LogWatcherRegistry::new();
    let first = registry.start("wg0".to_string());
    let mut old = watcher(first.token, None);
    let action = old.step(ReadEvent::Line(line(Some("wg0"), LogLevel::Error, 1)));
    assert_eq!(emitted(action), Some(1));
    let second = registry.start("wg0".to_string());
    let mut new = watcher(second.token, None);
    for timestamp in 2..5 {
        let action = old.step(ReadEvent::Line(line(Some("wg0"), LogLevel::Error, timestamp)));
        assert!(matches!(action, WatcherAction::Stop));
    }
    let action = new.step(ReadEvent::Line(line(Some("wg0"), LogLevel::Error, 5)));
    assert_eq!(emitted(action), Some(5));
}

#[test]
fn stopping_an_unwatched_interface_is_not_found() {
    let mut registry = LogWatcherRegistry::new();
    assert_eq!(registry.stop(&"wg0".to_string()).err(), Some(Error::NotFound));
    let started = registry.start("wg1".to_string());
    assert_eq!(registry.stop(&"wg0".to_string()).err(), Some(Error::NotFound));
    assert!(!started.token.is_cancelled());
    assert!(registry.is_watched(&"wg1".to_string()));
    assert!(!registry.is_watched(&"wg0".to_string()));
}

#[test]
fn stop_cancels_and_forgets_the_watcher() {
    let mut registry = LogWatcherRegistry::new();
    let first = registry.start("wg0".to_string());
    let second = registry.start("wg1".to_string());
    assert!(registry.stop(&"wg0".to_string()).is_ok());
    assert!(first.token.is_cancelled());
    assert!(!second.token.is_cancelled());
    assert!(!registry.is_watched(&"wg0".to_string()));
    assert!(registry.is_watched(&"wg1".to_string()));
    let third = registry.start("wg0".to_string());
    assert!(third.replaced.is_none());
}

#[test]
fn watcher_passes_on_what_matches() {
    let mut watcher = watcher(CancellationToken::new(), Some(100));
    assert_eq!(watcher.event_topic(), "log-update-wg0");
    let cases = [
        (line(Some("wg0"), LogLevel::Info, 100), true),
        (line(Some("wg0"), LogLevel::Error, 500), true),
        (line(Some("wg0"), LogLevel::Warn, 101), true),
        (line(Some("wg0"), LogLevel::Debug, 500), false),
        (line(Some("wg0"), LogLevel::Trace, 500), false),
        (line(Some("wg1"), LogLevel::Error, 500), false),
        (line(Some("wg00"), LogLevel::Error, 500), false),
        (line(None, LogLevel::Error, 500), false),
        (line(Some("wg0"), LogLevel::Error, 99), false),
    ];
    for (line, passed) in cases {
        assert_eq!(watcher.forwards(&line), passed);
        let timestamp = line.timestamp;
        let action = watcher.advance(false, ReadEvent::Line(line));
        if passed {
            assert_eq!(emitted(action), Some(timestamp));
        } else {
            assert!(matches!(action, WatcherAction::Skip));
        }
    }
    assert!(matches!(watcher.advance(false, ReadEvent::Quiet), WatcherAction::Skip));
}

#[test]
fn watch_without_a_start_takes_every_time() {
    let mut watcher = watcher(CancellationToken::new(), None);
    let action = watcher.advance(false, ReadEvent::Line(line(Some("wg0"), LogLevel::Info, i64::MIN)));
    assert_eq!(emitted(action), Some(i64::MIN));
}

#[test]
fn watcher_goes_from_idle_to_running_to_an_end() {
    let mut running = watcher(CancellationToken::new(), None);
    assert_eq!(running.status(), WatcherState::Idle);
    running.advance(false, ReadEvent::Quiet);
    assert_eq!(running.status(), WatcherState::Running);
    running.advance(false, ReadEvent::Line(line(None, LogLevel::Error, 1)));
    assert_eq!(running.status(), WatcherState::Running);
    running.advance(true, ReadEvent::Quiet);
    assert_eq!(running.status(), WatcherState::Cancelled);
    running.advance(false, ReadEvent::Failed);
    assert_eq!(running.status(), WatcherState::Cancelled);
    let mut failing = watcher(CancellationToken::new(), None);
    failing.advance(false, ReadEvent::Failed);
    assert_eq!(failing.status(), WatcherState::Errored);
    failing.advance(true, ReadEvent::Quiet);
    assert_eq!(failing.status(), WatcherState::Errored);
    let mut idle = watcher(CancellationToken::new(), None);
    idle.advance(true, ReadEvent::Quiet);
    assert_eq!(idle.status(), WatcherState::Cancelled);
}

#[test]
fn cancelled_watcher_stays_silent() {
    let mut watcher = watcher(CancellationToken::new(), None);
    let action = watcher.advance(true, ReadEvent::Line(line(Some("wg0"), LogLevel::Error, 1)));
    assert!(matches!(action, WatcherAction::Stop));
    let events = [
        ReadEvent::Line(line(Some("wg0"), LogLevel::Error, 2)),
        ReadEvent::Quiet,
        ReadEvent::Failed,
    ];
    for event in events {
        assert!(matches!(watcher.advance(false, event), WatcherAction::Stop));
    }
}

#[test]
fn read_failure_ends_the_watcher() {
    let mut watcher = watcher(CancellationToken::new(), None);
    assert!(matches!(watcher.advance(false, ReadEvent::Failed), WatcherAction::Fail));
    let action = watcher.advance(false, ReadEvent::Line(line(Some("wg0"), LogLevel::Error, 2)));
    assert!(matches!(action, WatcherAction::Stop));
    assert!(matches!(watcher.advance(true, ReadEvent::Quiet), WatcherAction::Stop));
}

#[test]
fn cancellation_is_seen_before_the_event() {
    let mut watcher = watcher(CancellationToken::new(), None);
    assert!(matches!(watcher.advance(true, ReadEvent::Failed), WatcherAction::Stop));
}

#[test]
fn watcher_follows_its_token() {
    let token = CancellationToken::new();
    let mut watcher = watcher(token.clone(), None);
    let action = watcher.step(ReadEvent::Line(line(Some("wg0"), LogLevel::Error, 1)));
    assert_eq!(emitted(action), Some(1));
    token.cancel();
    let action = watcher.step(ReadEvent::Line(line(Some("wg0"), LogLevel::Error, 2)));
    assert!(matches!(action, WatcherAction::Stop));
}

#[test]
fn interface_logs_start_a_watch() {
    let mut registry = LogWatcherRegistry::new();
    let location = named("wg 0");
    let platform = Platform::DevicePerLocation;
    let watch = get_interface_logs(
        &mut registry,
        Some(&location),
        Some("2023-10-01T12:00:00Z".to_string()),
        LogLevel::Debug,
        &platform,
    )
    .unwrap();
    assert_eq!(watch.topic, "log-update-wg0");
    assert_eq!(watch.interface_name, "wg0");
    assert_eq!(watch.level, LogLevel::Debug);
    assert_eq!(watch.from, Some(1_696_161_600_000_000));
    assert!(watch.replaced.is_none());
    assert!(registry.is_watched(&"wg0".to_string()));
    let again = get_interface_logs(
        &mut registry,
        Some(&location),
        Some("not a time".to_string()),
        LogLevel::Info,
        &platform,
    )
    .unwrap();
    assert_eq!(again.from, None);
    assert_eq!(again.topic, "log-update-wg0");
    assert!(watch.token.is_cancelled());
    assert!(again.replaced.unwrap().is_cancelled());
    assert!(!again.token.is_cancelled());
    let third = get_interface_logs(&mut registry, Some(&location), None, LogLevel::Info, &platform)
        .unwrap();
    assert_eq!(third.from, None);
    assert!(again.token.is_cancelled());
}

#[test]
fn interface_logs_of_an_unknown_location() {
    let mut registry = LogWatcherRegistry::new();
    let platform = Platform::DevicePerLocation;
    let result = get_interface_logs(&mut registry, None, None, LogLevel::Info, &platform);
    assert_eq!(result.err(), Some(Error::NotFound));
    let result = watch_interface(&mut registry, None, Some(5), LogLevel::Info, &platform);
    assert_eq!(result.err(), Some(Error::NotFound));
    assert_eq!(stop_interface_logs(&mut registry, None, &platform), Err(Error::NotFound));
}

#[test]
fn interface_logs_are_stopped_by_location() {
    let mut registry = LogWatcherRegistry::new();
    let platform = Platform::DevicePerLocation;
    let location = named("wg0");
    assert_eq!(stop_interface_logs(&mut registry, Some(&location), &platform), Err(Error::NotFound));
    let watch =
        watch_interface(&mut registry, Some(&location), Some(5), LogLevel::Warn, &platform).unwrap();
    assert_eq!(watch.from, Some(5));
    assert_eq!(watch.level, LogLevel::Warn);
    assert_eq!(stop_interface_logs(&mut registry, Some(&named("w g 0")), &platform), Ok(()));
    assert!(watch.token.is_cancelled());
    assert_eq!(stop_interface_logs(&mut registry, Some(&location), &platform), Err(Error::NotFound));
}

#[test]
fn watches_on_a_single_device_share_the_name() {
    let mut registry = LogWatcherRegistry::new();
    let platform = Platform::SingleDevice("utun3".to_string());
    let first =
        get_interface_logs(&mut registry, Some(&named("a")), None, LogLevel::Info, &platform)
            .unwrap();
    assert_eq!(first.topic, "log-update-utun3");
    let second =
        get_interface_logs(&mut registry, Some(&named("b")), None, LogLevel::Info, &platform)
            .unwrap();
    assert_eq!(second.interface_name, "utun3");
    assert!(first.token.is_cancelled());
}
