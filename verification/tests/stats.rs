use defguard_client::commands::DateTimeAggregation;
use defguard_client::location::LocationStats;
use defguard_client::stats::{aggregate, truncate, InterfaceReading, StatsSampler};
use tokio_util::sync::CancellationToken;

const HOUR: i64 = 3_600_000_000;
const SECOND: i64 = 1_000_000;

fn sample(location_id: i64, collected_at: i64, upload: i64) -> LocationStats {
    LocationStats::new(location_id, upload, 0, 0, collected_at, 1, None)
}

fn reading() -> InterfaceReading {
    InterfaceReading {
        upload: 100,
        download: 200,
        last_handshake: 1_700_000_000,
        listen_port: 51820,
        persistent_keepalive_interval: Some(25),
    }
}

#[test]
fn new_sample_is_not_stored() {
    let row = LocationStats::new(1, 2, 3, 4, 5, 6, Some(7));
    assert_eq!(
        row,
        LocationStats {
            id: None,
            location_id: 1,
            upload: 2,
            download: 3,
            last_handshake: 4,
            collected_at: 5,
            listen_port: 6,
            persistent_keepalive_interval: Some(7),
        }
    );
}

#[test]
fn samples_come_back_in_order_of_collection() {
    let rows = vec![
        sample(1, 30, 1),
        sample(2, 5, 2),
        sample(1, 10, 3),
        sample(1, 30, 4),
        sample(1, 20, 5),
        sample(3, 1, 6),
        sample(1, 10, 7),
    ];
    let fetched = LocationStats::fetch_all_by_location_id(&rows, 1);
    let times: Vec<i64> = fetched.iter().map(|row| row.collected_at).collect();
    assert_eq!(times, vec![10, 10, 20, 30, 30]);
    let uploads: Vec<i64> = fetched.iter().map(|row| row.upload).collect();
    assert_eq!(uploads, vec![3, 7, 5, 1, 4]);
    assert!(fetched.iter().all(|row| row.location_id == 1));
    let fetched = LocationStats::fetch_all_by_location_id(&rows, 2);
    assert_eq!(fetched, vec![sample(2, 5, 2)]);
    assert!(LocationStats::fetch_all_by_location_id(&rows, 9).is_empty());
    assert!(LocationStats::fetch_all_by_location_id(&Vec::new(), 1).is_empty());
}

#[test]
fn samples_at_the_ends_of_time() {
    let rows = vec![sample(1, i64::MAX, 1), sample(1, i64::MIN, 2), sample(1, 0, 3)];
    let fetched = LocationStats::fetch_all_by_location_id(&rows, 1);
    let times: Vec<i64> = fetched.iter().map(|row| row.collected_at).collect();
    assert_eq!(times, vec![i64::MIN, 0, i64::MAX]);
}

#[test]
fn instants_are_truncated_down() {
    assert_eq!(truncate(0, DateTimeAggregation::Hour), 0);
    assert_eq!(truncate(HOUR - 1, DateTimeAggregation::Hour), 0);
    assert_eq!(truncate(HOUR, DateTimeAggregation::Hour), HOUR);
    assert_eq!(truncate(5 * HOUR + 123, DateTimeAggregation::Hour), 5 * HOUR);
    assert_eq!(truncate(-1, DateTimeAggregation::Hour), -HOUR);
    assert_eq!(truncate(-HOUR, DateTimeAggregation::Hour), -HOUR);
    assert_eq!(truncate(-HOUR - 1, DateTimeAggregation::Hour), -2 * HOUR);
    assert_eq!(truncate(1_999_999, DateTimeAggregation::Second), SECOND);
    assert_eq!(truncate(-1, DateTimeAggregation::Second), -SECOND);
    assert_eq!(truncate(-SECOND, DateTimeAggregation::Second), -SECOND);
    assert_eq!(truncate(1_696_161_600_250_000, DateTimeAggregation::Second), 1_696_161_600_000_000);
    assert_eq!(truncate(1_696_163_400_250_000, DateTimeAggregation::Hour), 1_696_161_600_000_000);
    assert_eq!(truncate(i64::MAX, DateTimeAggregation::Hour), i64::MAX - i64::MAX % HOUR);
    let low = i64::MIN + HOUR;
    assert_eq!(truncate(low, DateTimeAggregation::Hour), low - low.rem_euclid(HOUR));
}

#[test]
fn one_point_for_each_bucket() {
    let rows = vec![
        sample(1, 3 * HOUR + 7, 1),
        sample(1, HOUR + 5, 2),
        sample(1, HOUR + 50, 3),
        sample(2, HOUR + 60, 4),
        sample(1, 2 * HOUR - 1, 5),
        sample(1, 9 * HOUR, 6),
        sample(1, 10, 7),
    ];
    let points = aggregate(&rows, 1, HOUR, 8 * HOUR, DateTimeAggregation::Hour);
    assert_eq!(points, vec![sample(1, HOUR, 5), sample(1, 3 * HOUR, 1)]);
    let points = aggregate(&rows, 1, HOUR, 8 * HOUR, DateTimeAggregation::Second);
    let expected = vec![sample(1, HOUR, 3), sample(1, 2 * HOUR - SECOND, 5), sample(1, 3 * HOUR, 1)];
    assert_eq!(points, expected);
    let points = aggregate(&rows, 1, 0, 9 * HOUR, DateTimeAggregation::Hour);
    let times: Vec<i64> = points.iter().map(|p| p.collected_at).collect();
    assert_eq!(times, vec![0, HOUR, 3 * HOUR, 9 * HOUR]);
    assert!(aggregate(&rows, 1, 4 * HOUR, 8 * HOUR, DateTimeAggregation::Hour).is_empty());
    assert!(aggregate(&rows, 1, 8 * HOUR, HOUR, DateTimeAggregation::Hour).is_empty());
    assert!(aggregate(&rows, 5, 0, 9 * HOUR, DateTimeAggregation::Hour).is_empty());
}

#[test]
fn a_bucket_may_start_before_the_period() {
    let rows = vec![sample(1, HOUR + 30, 1)];
    let points = aggregate(&rows, 1, HOUR + 20, 2 * HOUR, DateTimeAggregation::Hour);
    assert_eq!(points, vec![sample(1, HOUR, 1)]);
    let rows = vec![sample(1, -30, 1), sample(1, -HOUR - 1, 2)];
    let points = aggregate(&rows, 1, -2 * HOUR, 0, DateTimeAggregation::Hour);
    assert_eq!(points, vec![sample(1, -2 * HOUR, 2), sample(1, -HOUR, 1)]);
}

#[test]
fn sampler_makes_rows_until_it_is_stopped() {
    let mut sampler = StatsSampler::new(4, CancellationToken::new());
    assert!(sampler.observe(false));
    let row = sampler.record(reading(), 1_234).unwrap();
    assert_eq!(
        row,
        LocationStats {
            id: None,
            location_id: 4,
            upload: 100,
            download: 200,
            last_handshake: 1_700_000_000,
            collected_at: 1_234,
            listen_port: 51820,
            persistent_keepalive_interval: Some(25),
        }
    );
    assert!(sampler.after_store(false));
    assert!(sampler.after_store(true));
    assert!(!sampler.observe(true));
    assert_eq!(sampler.record(reading(), 1_235), None);
    assert_eq!(sampler.sample(reading()), None);
    assert!(!sampler.observe(false));
    assert!(!sampler.after_store(true));
    assert_eq!(sampler.record(reading(), 1_236), None);
}

#[test]
fn sampler_follows_its_token() {
    let token = CancellationToken::new();
    let mut sampler = StatsSampler::new(4, token.clone());
    assert!(sampler.poll());
    assert!(sampler.poll());
    let row = sampler.sample(reading()).unwrap();
    assert_eq!(row.location_id, 4);
    assert_eq!(row.upload, 100);
    assert!(row.collected_at > 1_600_000_000_000_000);
    token.cancel();
    assert_eq!(sampler.sample(reading()).map(|row| row.upload), Some(100));
    assert!(!sampler.poll());
    assert_eq!(sampler.sample(reading()), None);
    assert!(!sampler.poll());
}
