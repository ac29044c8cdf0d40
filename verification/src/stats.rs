use vstd::prelude::*;
use vstd::arithmetic::div_mod::{
    lemma_div_is_ordered, lemma_fundamental_div_mod, lemma_fundamental_div_mod_converse,
};
use vstd::arithmetic::mul::lemma_mul_inequality;
use vstd::seq_lib::to_multiset_build;
use tokio_util::sync::CancellationToken;
use crate::cancel::token_cancelled;
use crate::clock::{now, HOUR, SECOND};
use crate::commands::DateTimeAggregation;
use crate::location::LocationStats;

verus! {

/// What one reading of an interface gives.
#[derive(Clone, Copy, Debug, PartialEq, Eq, Structural)]
pub struct InterfaceReading {
    /// Bytes sent.
    pub upload: i64,
    /// Bytes received.
    pub download: i64,
    pub last_handshake: i64,
    pub listen_port: u32,
    pub persistent_keepalive_interval: Option<u16>,
}

/// The sample that a reading of a location's interface makes at a given time.
pub open spec fn sample_of(location_id: i64, reading: InterfaceReading, collected_at: i64)
    -> LocationStats {
    LocationStats {
        id: None,
        location_id,
        upload: reading.upload,
        download: reading.download,
        last_handshake: reading.last_handshake,
        collected_at,
        listen_port: reading.listen_port,
        persistent_keepalive_interval: reading.persistent_keepalive_interval,
    }
}

/// The sampler of one live tunnel. It runs until its token is cancelled, and
/// once it has seen the cancellation it makes no further sample.
pub struct StatsSampler {
    location_id: i64,
    token: CancellationToken,
    stopped: bool,
}

impl StatsSampler {
    /// The location whose interface is sampled.
    pub closed spec fn location(&self) -> i64 {
        self.location_id
    }

    /// The token through which the sampler is stopped.
    pub closed spec fn token(&self) -> CancellationToken {
        self.token
    }

    /// Whether the sampler has seen its cancellation.
    pub closed spec fn stopped(&self) -> bool {
        self.stopped
    }

    /// A running sampler for a location, stopped through `token`.
    pub fn new(location_id: i64, token: CancellationToken) -> (sampler: Self)
        ensures
            sampler.location() == location_id,
            sampler.token() == token,
            !sampler.stopped(),
    {
        StatsSampler { location_id, token, stopped: false }
    }

    /// Takes note of whether cancellation was requested, at the top of an
    /// iteration. The sampler goes on only if it was not stopped before and
    /// is not cancelled now.
    pub fn observe(&mut self, cancelled: bool) -> (go_on: bool)
        ensures
            final(self).location() == old(self).location(),
            final(self).token() == old(self).token(),
            final(self).stopped() == (old(self).stopped() || cancelled),
            go_on == !final(self).stopped(),
    {
        if cancelled {
            self.stopped = true;
        }
        !self.stopped
    }

    /// Asks the token whether cancellation was requested, at the top of an
    /// iteration, and says whether the sampler goes on.
    pub fn poll(&mut self) -> (go_on: bool)
        ensures
            final(self).location() == old(self).location(),
            final(self).token() == old(self).token(),
            old(self).stopped() ==> final(self).stopped(),
            go_on == !final(self).stopped(),
    {
        let cancelled = token_cancelled(&self.token);
        self.observe(cancelled)
    }

    /// The sample to store for a reading taken at `collected_at`: none once
    /// the sampler has stopped.
    pub fn record(&self, reading: InterfaceReading, collected_at: i64) -> (sample: Option<
        LocationStats,
    >)
        ensures
            sample == (if self.stopped() {
                None
            } else {
                Some(sample_of(self.location(), reading, collected_at))
            }),
    {
        if self.stopped {
            None
        } else {
            Some(
                LocationStats::new(
                    self.location_id,
                    reading.upload,
                    reading.download,
                    reading.last_handshake,
                    collected_at,
                    reading.listen_port,
                    reading.persistent_keepalive_interval,
                ),
            )
        }
    }

    /// The sample to store for a reading taken now: none once the sampler
    /// has stopped.
    pub fn sample(&self, reading: InterfaceReading) -> (sample: Option<LocationStats>)
        ensures
            sample is Some <==> !self.stopped(),
            sample matches Some(row) ==> row.collected_at >= 0 && row == sample_of(
                self.location(),
                reading,
                row.collected_at,
            ),
    {
        let collected_at: i64 = now();
        self.record(reading, collected_at)
    }

    /// Whether the sampler goes on after an attempt to store a sample. It
    /// does whether or not the sample was stored: a failure of storage is left
    /// to the next tick.
    pub fn after_store(&self, _stored: bool) -> (go_on: bool)
        ensures
            go_on == !self.stopped(),
    {
        !self.stopped
    }
}

/// Whether samples come in non-decreasing order of collection time.
pub open spec fn ascending(samples: Seq<LocationStats>) -> bool {
    forall|i: int, j: int|
        0 <= i <= j < samples.len() ==> samples[i].collected_at <= samples[j].collected_at
}

/// An ordered sequence with one more sample, put behind every sample that was
/// not collected later than it.
pub open spec fn placed(samples: Seq<LocationStats>, sample: LocationStats) -> Seq<LocationStats>
    decreases samples.len(),
{
    if samples.len() == 0 {
        seq![sample]
    } else if samples.last().collected_at <= sample.collected_at {
        samples.push(sample)
    } else {
        placed(samples.drop_last(), sample).push(samples.last())
    }
}

/// The samples by collection time; samples collected at the same time keep
/// their order.
pub open spec fn in_order(samples: Seq<LocationStats>) -> Seq<LocationStats>
    decreases samples.len(),
{
    if samples.len() == 0 {
        samples
    } else {
        placed(in_order(samples.drop_last()), samples.last())
    }
}

/// The samples of one location, in the order of the rows.
pub open spec fn of_location(rows: Seq<LocationStats>, location_id: i64) -> Seq<LocationStats> {
    rows.filter(|row: LocationStats| row.location_id == location_id)
}

/// Placing a sample keeps the order, and adds that sample and nothing else.
pub proof fn lemma_placed(samples: Seq<LocationStats>, sample: LocationStats)
    requires
        ascending(samples),
    ensures
        ascending(placed(samples, sample)),
        placed(samples, sample).len() == samples.len() + 1,
        placed(samples, sample).to_multiset() == samples.to_multiset().insert(sample),
        forall|i: int|
            0 <= i < placed(samples, sample).len() ==> #[trigger] placed(samples, sample)[i]
                == sample || samples.contains(placed(samples, sample)[i]),
    decreases samples.len(),
{
    let result = placed(samples, sample);
    if samples.len() == 0 {
        to_multiset_build(samples, sample);
        assert(result == samples.push(sample));
    } else if samples.last().collected_at <= sample.collected_at {
        to_multiset_build(samples, sample);
        assert forall|i: int| 0 <= i < result.len() implies #[trigger] result[i] == sample
            || samples.contains(result[i]) by {
            if i < samples.len() {
                assert(samples[i] == result[i]);
            }
        }
    } else {
        let front = samples.drop_last();
        let inner = placed(front, sample);
        assert(ascending(front));
        lemma_placed(front, sample);
        assert(samples == front.push(samples.last()));
        to_multiset_build(front, samples.last());
        to_multiset_build(inner, samples.last());
        assert(result.to_multiset() == samples.to_multiset().insert(sample)) by {
            assert(front.to_multiset().insert(sample).insert(samples.last())
                =~= front.to_multiset().insert(samples.last()).insert(sample));
        }
        assert forall|i: int| 0 <= i < result.len() implies #[trigger] result[i] == sample
            || samples.contains(result[i]) by {
            if i < inner.len() {
                assert(result[i] == inner[i]);
                if inner[i] != sample {
                    assert(front.contains(inner[i]));
                    let k = choose|k: int| 0 <= k < front.len() && front[k] == inner[i];
                    assert(samples[k] == inner[i]);
                }
            } else {
                assert(result[i] == samples[samples.len() - 1]);
            }
        }
        assert forall|i: int, j: int| 0 <= i <= j < result.len() implies result[i].collected_at
            <= result[j].collected_at by {
            if j < inner.len() {
                assert(result[i] == inner[i] && result[j] == inner[j]);
            } else if i < inner.len() {
                assert(result[i] == inner[i]);
                if inner[i] != sample {
                    assert(front.contains(inner[i]));
                    let k = choose|k: int| 0 <= k < front.len() && front[k] == inner[i];
                    assert(samples[k].collected_at <= samples[samples.len() - 1].collected_at);
                }
            }
        }
    }
}

/// Ordering samples gives them by collection time, none lost and none made
/// up.
pub proof fn lemma_in_order(samples: Seq<LocationStats>)
    ensures
        ascending(in_order(samples)),
        in_order(samples).len() == samples.len(),
        in_order(samples).to_multiset() == samples.to_multiset(),
        forall|i: int|
            0 <= i < in_order(samples).len() ==> samples.contains(#[trigger] in_order(samples)[i]),
    decreases samples.len(),
{
    if samples.len() > 0 {
        let front = samples.drop_last();
        lemma_in_order(front);
        lemma_placed(in_order(front), samples.last());
        assert(samples == front.push(samples.last()));
        to_multiset_build(front, samples.last());
        let result = in_order(samples);
        assert forall|i: int| 0 <= i < result.len() implies samples.contains(
            #[trigger] result[i],
        ) by {
            if result[i] == samples.last() {
                assert(samples[samples.len() - 1] == result[i]);
            } else {
                assert(in_order(front).contains(result[i]));
                let k = choose|k: int|
                    0 <= k < in_order(front).len() && in_order(front)[k] == result[i];
                assert(front.contains(in_order(front)[k]));
                let m = choose|m: int| 0 <= m < front.len() && front[m] == result[i];
                assert(samples[m] == result[i]);
            }
        }
    }
}

/// The samples of a location, once stored in whatever order, are read back in
/// non-decreasing order of collection time: each of them as often as it was
/// stored, and no sample of another location.
pub proof fn lemma_fetch_in_order(rows: Seq<LocationStats>, location_id: i64)
    ensures
        ascending(in_order(of_location(rows, location_id))),
        in_order(of_location(rows, location_id)).to_multiset() == of_location(
            rows,
            location_id,
        ).to_multiset(),
        forall|i: int|
            0 <= i < in_order(of_location(rows, location_id)).len() ==> (#[trigger] in_order(
                of_location(rows, location_id),
            )[i]).location_id == location_id,
        forall|i: int|
            0 <= i < rows.len() && rows[i].location_id == location_id ==> in_order(
                of_location(rows, location_id),
            ).contains(#[trigger] rows[i]),
{
    broadcast use vstd::seq_lib::group_filter_ensures;
    broadcast use vstd::seq_lib::group_to_multiset_ensures;

    let keep = |row: LocationStats| row.location_id == location_id;
    let kept = of_location(rows, location_id);
    let result = in_order(kept);
    lemma_in_order(kept);
    assert forall|i: int| 0 <= i < result.len() implies (#[trigger] result[i]).location_id
        == location_id by {
        assert(kept.contains(result[i]));
        let k = choose|k: int| 0 <= k < kept.len() && kept[k] == result[i];
        assert(keep(kept[k]));
    }
    assert forall|i: int|
        0 <= i < rows.len() && rows[i].location_id == location_id implies result.contains(
        #[trigger] rows[i],
    ) by {
        assert(keep(rows[i]));
        assert(kept.contains(rows[i]));
        assert(kept.to_multiset().count(rows[i]) > 0);
        assert(result.to_multiset().count(rows[i]) > 0);
    }
}

proof fn lemma_placed_at(samples: Seq<LocationStats>, sample: LocationStats, at: int)
    requires
        0 <= at <= samples.len(),
        forall|k: int|
            at <= k < samples.len() ==> samples[k].collected_at > sample.collected_at,
        at > 0 ==> samples[at - 1].collected_at <= sample.collected_at,
    ensures
        placed(samples, sample) == samples.insert(at, sample),
    decreases samples.len(),
{
    if samples.len() == 0 {
        assert(seq![sample] =~= samples.insert(at, sample));
    } else if at == samples.len() {
        assert(samples.push(sample) =~= samples.insert(at, sample));
    } else {
        let front = samples.drop_last();
        lemma_placed_at(front, sample, at);
        assert(front.insert(at, sample).push(samples.last()) =~= samples.insert(at, sample));
    }
}

fn place(samples: &mut Vec<LocationStats>, sample: LocationStats)
    ensures
        final(samples)@ == placed(old(samples)@, sample),
{
    let mut at: usize = samples.len();
    while at > 0 && samples[at - 1].collected_at > sample.collected_at
        invariant
            at <= samples@.len(),
            samples@ == old(samples)@,
            forall|k: int| at <= k < samples@.len() ==> samples@[k].collected_at
                > sample.collected_at,
        decreases at,
    {
        at -= 1;
    }
    proof {
        lemma_placed_at(samples@, sample, at as int);
    }
    samples.insert(at, sample);
}

impl LocationStats {
    /// The samples of a location among the rows read from storage, by
    /// collection time. Samples collected at the same time keep the order of
    /// the rows.
    pub fn fetch_all_by_location_id(rows: &Vec<LocationStats>, location_id: i64) -> (samples: Vec<
        LocationStats,
    >)
        ensures
            samples@ == in_order(of_location(rows@, location_id)),
            ascending(samples@),
            samples@.to_multiset() == of_location(rows@, location_id).to_multiset(),
    {
        let mut samples: Vec<LocationStats> = Vec::new();
        let ghost keep = |row: LocationStats| row.location_id == location_id;
        let mut i: usize = 0;
        while i < rows.len()
            invariant
                i <= rows@.len(),
                keep == (|row: LocationStats| row.location_id == location_id),
                samples@ == in_order(rows@.take(i as int).filter(keep)),
            decreases rows@.len() - i,
        {
            let row = rows[i];
            proof {
                let seen = rows@.take(i as int);
                assert(rows@.take(i + 1) == seen.push(row));
                seen.lemma_filter_push(row, keep);
                if keep(row) {
                    assert(seen.filter(keep).push(row).drop_last() == seen.filter(keep));
                }
            }
            if row.location_id == location_id {
                place(&mut samples, row);
            }
            i += 1;
        }
        proof {
            assert(rows@.take(rows@.len() as int) == rows@);
            lemma_in_order(of_location(rows@, location_id));
        }
        samples
    }
}

/// The length of a bucket, in microseconds.
pub open spec fn bucket_width(aggregation: DateTimeAggregation) -> int {
    match aggregation {
        DateTimeAggregation::Hour => HOUR as int,
        DateTimeAggregation::Second => SECOND as int,
    }
}

/// The start of the bucket that holds an instant: the instant truncated to
/// the hour or to the second.
pub open spec fn bucket_start(instant: int, aggregation: DateTimeAggregation) -> int {
    instant - instant % bucket_width(aggregation)
}

/// A bucket starts at a multiple of its width, at or before each of its
/// instants and less than a width before them, and later instants are not in
/// earlier buckets.
pub proof fn lemma_bucket_start(instant: int, later: int, aggregation: DateTimeAggregation)
    requires
        instant <= later,
    ensures
        bucket_start(instant, aggregation) % bucket_width(aggregation) == 0,
        bucket_start(instant, aggregation) <= instant < bucket_start(instant, aggregation)
            + bucket_width(aggregation),
        bucket_start(instant, aggregation) <= bucket_start(later, aggregation),
{
    let width = bucket_width(aggregation);
    lemma_fundamental_div_mod(instant, width);
    lemma_fundamental_div_mod(later, width);
    lemma_div_is_ordered(instant, later, width);
    lemma_mul_inequality(instant / width, later / width, width);
    assert(width * (instant / width) == (instant / width) * width) by (nonlinear_arith);
    assert(width * (later / width) == (later / width) * width) by (nonlinear_arith);
    let start = bucket_start(instant, aggregation);
    lemma_fundamental_div_mod_converse(start, width, instant / width, 0);
}

proof fn lemma_negative_remainder(instant: int, width: int)
    requires
        width > 0,
        instant < 0,
    ensures
        instant % width == (if (-instant) % width == 0 {
            0
        } else {
            width - (-instant) % width
        }),
{
    let m = (-instant) % width;
    let q = (-instant) / width;
    lemma_fundamental_div_mod(-instant, width);
    if m == 0 {
        assert(instant == (-q) * width + 0) by (nonlinear_arith)
            requires
                -instant == width * q + m,
                m == 0,
        ;
        lemma_fundamental_div_mod_converse(instant, width, -q, 0);
    } else {
        assert(instant == (-q - 1) * width + (width - m)) by (nonlinear_arith)
            requires
                -instant == width * q + m,
        ;
        lemma_fundamental_div_mod_converse(instant, width, -q - 1, width - m);
    }
}

/// Truncates an instant to the start of its bucket.
pub fn truncate(instant: i64, aggregation: DateTimeAggregation) -> (start: i64)
    requires
        instant >= i64::MIN + HOUR,
    ensures
        start == bucket_start(instant as int, aggregation),
{
    let width: i64 = match aggregation {
        DateTimeAggregation::Hour => HOUR,
        DateTimeAggregation::Second => SECOND,
    };
    let rest: i64 = instant % width;
    proof {
        if instant < 0 {
            lemma_negative_remainder(instant as int, width as int);
        }
    }
    if rest < 0 {
        instant - (rest + width)
    } else {
        instant - rest
    }
}

/// Whether a sample was collected between `from` and `now`, both included.
pub open spec fn in_window(sample: LocationStats, from: i64, now: i64) -> bool {
    from <= sample.collected_at <= now
}

/// A sample as the point of its bucket: it carries the start of the bucket
/// in place of its collection time.
pub open spec fn stamped(sample: LocationStats, aggregation: DateTimeAggregation) -> LocationStats {
    LocationStats {
        collected_at: bucket_start(sample.collected_at as int, aggregation) as i64,
        ..sample
    }
}

/// One point for each bucket that holds a sample, in the order of the
/// samples: the point of a bucket is the last of its samples. The samples of
/// a bucket have to follow one another, as they do in ordered samples.
pub open spec fn bucketed(samples: Seq<LocationStats>, aggregation: DateTimeAggregation) -> Seq<
    LocationStats,
>
    decreases samples.len(),
{
    if samples.len() == 0 {
        samples
    } else {
        let before = bucketed(samples.drop_last(), aggregation);
        let point = stamped(samples.last(), aggregation);
        if before.len() > 0 && before.last().collected_at == point.collected_at {
            before.drop_last().push(point)
        } else {
            before.push(point)
        }
    }
}

/// The aggregated points of a location between `from` and `now`: its samples
/// of that time by collection time, one point for each bucket.
pub open spec fn aggregated(
    rows: Seq<LocationStats>,
    location_id: i64,
    from: i64,
    now: i64,
    aggregation: DateTimeAggregation,
) -> Seq<LocationStats> {
    bucketed(
        in_order(of_location(rows, location_id)).filter(
            |sample: LocationStats| in_window(sample, from, now),
        ),
        aggregation,
    )
}

/// Whether points come in strictly ascending order of their time.
pub open spec fn strictly_ascending(points: Seq<LocationStats>) -> bool {
    forall|i: int, j: int|
        0 <= i < j < points.len() ==> points[i].collected_at < points[j].collected_at
}

/// The points of ordered samples come in strictly ascending order of bucket
/// start, each at the start of a bucket that holds a sample, and the last
/// point is the last sample's.
pub proof fn lemma_bucketed(samples: Seq<LocationStats>, aggregation: DateTimeAggregation)
    requires
        ascending(samples),
        forall|i: int|
            0 <= i < samples.len() ==> (#[trigger] samples[i]).collected_at >= i64::MIN + HOUR,
    ensures
        strictly_ascending(bucketed(samples, aggregation)),
        bucketed(samples, aggregation).len() <= samples.len(),
        samples.len() > 0 ==> bucketed(samples, aggregation).len() > 0 && bucketed(
            samples,
            aggregation,
        ).last() == stamped(samples.last(), aggregation),
        forall|i: int|
            0 <= i < bucketed(samples, aggregation).len() ==> exists|k: int|
                0 <= k < samples.len() && #[trigger] bucketed(samples, aggregation)[i] == stamped(
                    #[trigger] samples[k],
                    aggregation,
                ),
    decreases samples.len(),
{
    if samples.len() > 0 {
        let front = samples.drop_last();
        let before = bucketed(front, aggregation);
        let point = stamped(samples.last(), aggregation);
        let points = bucketed(samples, aggregation);
        assert(ascending(front));
        assert forall|i: int| 0 <= i < front.len() implies (#[trigger] front[i]).collected_at
            >= i64::MIN + HOUR by {
            assert(front[i] == samples[i]);
        }
        lemma_bucketed(front, aggregation);
        lemma_bucket_start(
            samples.last().collected_at as int,
            samples.last().collected_at as int,
            aggregation,
        );
        if front.len() > 0 {
            assert(front.last() == samples[samples.len() - 2]);
            lemma_bucket_start(
                front.last().collected_at as int,
                samples.last().collected_at as int,
                aggregation,
            );
            lemma_bucket_start(
                front.last().collected_at as int,
                front.last().collected_at as int,
                aggregation,
            );
            assert(before.last().collected_at <= point.collected_at);
        }
        assert forall|i: int, j: int| 0 <= i < j < points.len() implies points[i].collected_at
            < points[j].collected_at by {
            if j < points.len() - 1 {
                assert(points[i] == before[i] && points[j] == before[j]);
            } else {
                assert(points[j] == point);
                assert(points[i] == before[i]);
                if before.last().collected_at == point.collected_at {
                    assert(before[i].collected_at < before[before.len() - 1].collected_at);
                } else if i < before.len() - 1 {
                    assert(before[i].collected_at < before[before.len() - 1].collected_at);
                }
            }
        }
        assert forall|i: int| 0 <= i < points.len() implies exists|k: int|
            0 <= k < samples.len() && #[trigger] points[i] == stamped(
                #[trigger] samples[k],
                aggregation,
            ) by {
            if i == points.len() - 1 {
                assert(points[i] == stamped(samples[samples.len() - 1], aggregation));
            } else {
                assert(points[i] == before[i]);
                let k = choose|k: int|
                    0 <= k < front.len() && #[trigger] before[i] == stamped(
                        #[trigger] front[k],
                        aggregation,
                    );
                assert(front[k] == samples[k]);
                assert(points[i] == stamped(samples[k], aggregation));
            }
        }
    }
}

/// Leaving samples out keeps the order of those that stay.
pub proof fn lemma_filter_ascending(
    samples: Seq<LocationStats>,
    keep: spec_fn(LocationStats) -> bool,
)
    requires
        ascending(samples),
    ensures
        ascending(samples.filter(keep)),
        forall|i: int|
            0 <= i < samples.filter(keep).len() ==> samples.contains(
                #[trigger] samples.filter(keep)[i],
            ) && keep(samples.filter(keep)[i]),
    decreases samples.len(),
{
    reveal(Seq::filter);
    let kept = samples.filter(keep);
    if samples.len() > 0 {
        let front = samples.drop_last();
        let inner = front.filter(keep);
        assert(ascending(front));
        lemma_filter_ascending(front, keep);
        assert forall|i: int| 0 <= i < kept.len() implies samples.contains(#[trigger] kept[i])
            && keep(kept[i]) by {
            if i < inner.len() {
                assert(kept[i] == inner[i]);
                assert(front.contains(inner[i]));
                let k = choose|k: int| 0 <= k < front.len() && front[k] == inner[i];
                assert(samples[k] == kept[i]);
            } else {
                assert(kept[i] == samples[samples.len() - 1]);
            }
        }
        assert forall|i: int, j: int| 0 <= i <= j < kept.len() implies kept[i].collected_at
            <= kept[j].collected_at by {
            if j < inner.len() {
                assert(kept[i] == inner[i] && kept[j] == inner[j]);
            } else if i < inner.len() {
                assert(kept[i] == inner[i]);
                assert(front.contains(inner[i]));
                let k = choose|k: int| 0 <= k < front.len() && front[k] == inner[i];
                assert(samples[k].collected_at <= samples[samples.len() - 1].collected_at);
            }
        }
    }
}

/// The aggregated points of a period come in strictly ascending order of
/// bucket start. Each is the point of a sample that the location collected
/// in the period, so it lies between the start of the bucket that holds
/// `from` and `now`.
pub proof fn lemma_aggregated(
    rows: Seq<LocationStats>,
    location_id: i64,
    from: i64,
    now: i64,
    aggregation: DateTimeAggregation,
)
    requires
        from >= i64::MIN + HOUR,
    ensures
        strictly_ascending(aggregated(rows, location_id, from, now, aggregation)),
        forall|i: int|
            0 <= i < aggregated(rows, location_id, from, now, aggregation).len() ==> {
                let point = #[trigger] aggregated(rows, location_id, from, now, aggregation)[i];
                &&& point.location_id == location_id
                &&& bucket_start(from as int, aggregation) <= point.collected_at <= now
                &&& (point.collected_at as int) % bucket_width(aggregation) == 0
                &&& exists|k: int|
                    0 <= k < rows.len() && in_window(#[trigger] rows[k], from, now) && point
                        == stamped(rows[k], aggregation)
            },
{
    broadcast use vstd::seq_lib::group_filter_ensures;

    let within = |sample: LocationStats| in_window(sample, from, now);
    let ordered = in_order(of_location(rows, location_id));
    let windowed = ordered.filter(within);
    let points = aggregated(rows, location_id, from, now, aggregation);
    lemma_fetch_in_order(rows, location_id);
    lemma_in_order(of_location(rows, location_id));
    lemma_filter_ascending(ordered, within);
    assert forall|i: int| 0 <= i < windowed.len() implies (#[trigger] windowed[i]).collected_at
        >= i64::MIN + HOUR by {
        assert(within(windowed[i]));
    }
    lemma_bucketed(windowed, aggregation);
    assert forall|i: int| 0 <= i < points.len() implies ({
        let point = #[trigger] points[i];
        &&& point.location_id == location_id
        &&& bucket_start(from as int, aggregation) <= point.collected_at <= now
        &&& (point.collected_at as int) % bucket_width(aggregation) == 0
        &&& exists|k: int|
            0 <= k < rows.len() && in_window(#[trigger] rows[k], from, now) && point == stamped(
                rows[k],
                aggregation,
            )
    }) by {
        let k = choose|k: int|
            0 <= k < windowed.len() && #[trigger] points[i] == stamped(
                #[trigger] windowed[k],
                aggregation,
            );
        let sample = windowed[k];
        assert(within(sample));
        assert(ordered.contains(sample));
        let m = choose|m: int| 0 <= m < ordered.len() && ordered[m] == sample;
        assert(ordered[m].location_id == location_id);
        assert(of_location(rows, location_id).contains(ordered[m]));
        let kept = of_location(rows, location_id);
        rows.lemma_filter_contains_rev(
            |row: LocationStats| row.location_id == location_id,
            sample,
        );
        let r = choose|r: int| 0 <= r < rows.len() && rows[r] == sample;
        assert(in_window(rows[r], from, now) && points[i] == stamped(rows[r], aggregation));
        lemma_bucket_start(from as int, sample.collected_at as int, aggregation);
        lemma_bucket_start(sample.collected_at as int, sample.collected_at as int, aggregation);
    }
}

/// Groups the samples that a location collected between `from` and `now`
/// into buckets of the given granularity. The points come in ascending order
/// of bucket start; each stands for the bucket's last sample and carries the
/// start of the bucket as its time.
pub fn aggregate(
    rows: &Vec<LocationStats>,
    location_id: i64,
    from: i64,
    now: i64,
    aggregation: DateTimeAggregation,
) -> (points: Vec<LocationStats>)
    requires
        from >= i64::MIN + HOUR,
    ensures
        points@ == aggregated(rows@, location_id, from, now, aggregation),
        strictly_ascending(points@),
{
    proof {
        lemma_aggregated(rows@, location_id, from, now, aggregation);
    }
    let samples = LocationStats::fetch_all_by_location_id(rows, location_id);
    let mut points: Vec<LocationStats> = Vec::new();
    let ghost within = |sample: LocationStats| in_window(sample, from, now);
    let mut i: usize = 0;
    while i < samples.len()
        invariant
            i <= samples@.len(),
            from >= i64::MIN + HOUR,
            within == (|sample: LocationStats| in_window(sample, from, now)),
            points@ == bucketed(samples@.take(i as int).filter(within), aggregation),
        decreases samples@.len() - i,
    {
        let sample = samples[i];
        proof {
            let seen = samples@.take(i as int);
            assert(samples@.take(i + 1) == seen.push(sample));
            seen.lemma_filter_push(sample, within);
            if within(sample) {
                assert(seen.filter(within).push(sample).drop_last() == seen.filter(within));
            }
        }
        if from <= sample.collected_at && sample.collected_at <= now {
            let point = LocationStats {
                id: sample.id,
                location_id: sample.location_id,
                upload: sample.upload,
                download: sample.download,
                last_handshake: sample.last_handshake,
                collected_at: truncate(sample.collected_at, aggregation),
                listen_port: sample.listen_port,
                persistent_keepalive_interval: sample.persistent_keepalive_interval,
            };
            let filled: usize = points.len();
            if filled > 0 && points[filled - 1].collected_at == point.collected_at {
                points.set(filled - 1, point);
                proof {
                    let before = bucketed(samples@.take(i as int).filter(within), aggregation);
                    assert(points@ == before.drop_last().push(point));
                }
            } else {
                points.push(point);
            }
        }
        i += 1;
    }
    proof {
        assert(samples@.take(samples@.len() as int) == samples@);
    }
    points
}

} // verus!
