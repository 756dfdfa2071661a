//! Keeping rooms that start together in step.

use vstd::prelude::*;

use crate::ids::ZoneId;
use crate::text_map::TextMap;

verus! {

/// How long the steps of a room's start took, as far as they were measured.
#[derive(Clone, Copy, Debug, PartialEq, Eq, Structural)]
pub struct ZoneStartupTiming {
    pub set_uri_ms: Option<u64>,
    pub subscriber_connect_ms: Option<u64>,
    pub first_bytes_ms: Option<u64>,
    pub play_ms: Option<u64>,
}

/// The later of two measurements.
pub open spec fn later(a: Option<u64>, b: Option<u64>) -> Option<u64> {
    match (a, b) {
        (Some(x), Some(y)) => if x < y {
            b
        } else {
            a
        },
        (Some(_), None) => a,
        (None, _) => b,
    }
}

/// The later of two measurements.
fn later_of(a: Option<u64>, b: Option<u64>) -> (r: Option<u64>)
    ensures
        r == later(a, b),
{
    match (a, b) {
        (Some(x), Some(y)) => if x < y {
            b
        } else {
            a
        },
        (Some(_), None) => a,
        (None, _) => b,
    }
}

impl Default for ZoneStartupTiming {
    fn default() -> (r: Self)
        ensures
            r.set_uri_ms is None,
            r.subscriber_connect_ms is None,
            r.first_bytes_ms is None,
            r.play_ms is None,
    {
        ZoneStartupTiming {
            set_uri_ms: None,
            subscriber_connect_ms: None,
            first_bytes_ms: None,
            play_ms: None,
        }
    }
}

impl ZoneStartupTiming {
    /// The startup lag: the latest measured step, if any was measured.
    pub open spec fn lag(self) -> Option<u64> {
        later(
            later(self.set_uri_ms, self.subscriber_connect_ms),
            later(self.first_bytes_ms, self.play_ms),
        )
    }

    /// The startup lag, if any step was measured.
    pub fn lag_ms(&self) -> (r: Option<u64>)
        ensures
            r == self.lag(),
    {
        later_of(
            later_of(self.set_uri_ms, self.subscriber_connect_ms),
            later_of(self.first_bytes_ms, self.play_ms),
        )
    }
}

// ---------------------------------------------------------------------------
// Medians
// ---------------------------------------------------------------------------
/// The values in ascending order.
pub open spec fn ascending(s: Seq<u64>) -> Seq<u64> {
    s.sort_by(|a: u64, b: u64| a <= b)
}

/// The median: the middle value, or half way between the two middle ones.
pub open spec fn median(s: Seq<u64>) -> int
    recommends
        s.len() > 0,
{
    let t = ascending(s);
    let mid = (s.len() / 2) as int;
    if s.len() % 2 == 1 {
        t[mid] as int
    } else {
        (t[mid - 1] + t[mid]) / 2
    }
}

/// The values in ascending order.
fn sorted_copy(s: &Vec<u64>) -> (r: Vec<u64>)
    ensures
        r@ == ascending(s@),
        r@.len() == s@.len(),
{
    let ghost leq = |a: u64, b: u64| a <= b;
    let mut r: Vec<u64> = Vec::new();
    let mut i: usize = 0;
    proof {
        assert(s@.take(0) =~= Seq::<u64>::empty());
    }
    while i < s.len()
        invariant
            i <= s@.len(),
            r@.len() == i,
            forall|a: int, b: int| 0 <= a < b < r@.len() ==> r@[a] <= r@[b],
            r@.to_multiset() == s@.take(i as int).to_multiset(),
        decreases s@.len() - i,
    {
        let x: u64 = s[i];
        let mut at: usize = i;
        while at > 0 && r[at - 1] > x
            invariant
                at <= i,
                r@.len() == i,
                forall|b: int| at <= b < i ==> x < r@[b],
            decreases at,
        {
            at = at - 1;
        }
        let ghost before = r@;
        r.insert(at, x);
        proof {
            broadcast use vstd::seq_lib::group_to_multiset_ensures;

            assert(r@ =~= before.insert(at as int, x));
            assert(s@.take(i + 1) =~= s@.take(i as int).push(x));
            assert forall|a: int, b: int| 0 <= a < b < r@.len() implies r@[a] <= r@[b] by {
                if a < at && b > at {
                    assert(before[a] <= before[b - 1]);
                } else if a < at && b == at && a < at - 1 {
                    assert(before[a] <= before[at - 1]);
                }
            }
        }
        i = i + 1;
    }
    proof {
        assert(s@.take(s@.len() as int) =~= s@);
        assert(vstd::relations::total_ordering(leq));
        s@.lemma_sort_by_ensures(leq);
        vstd::seq_lib::lemma_sorted_unique(r@, s@.sort_by(leq), leq);
    }
    r
}

/// The median of at least one value.
fn median_of(s: &Vec<u64>) -> (r: u64)
    requires
        s@.len() > 0,
    ensures
        r == median(s@),
{
    let t = sorted_copy(s);
    let mid: usize = t.len() / 2;
    if t.len() % 2 == 1 {
        t[mid]
    } else {
        ((t[mid - 1] as u128 + t[mid] as u128) / 2) as u64
    }
}

// ---------------------------------------------------------------------------
// Startup compensation
// ---------------------------------------------------------------------------
/// Estimates from recent starts how much later than others a room starts.
#[derive(Debug)]
pub struct StartupDelayEstimator {
    sample_limit: usize,
    min_samples: usize,
    samples: TextMap<Vec<u64>>,
}

/// The most recent samples once another is taken.
pub open spec fn rolled(samples: Seq<u64>, sample: u64, limit: nat) -> Seq<u64> {
    let all = samples.push(sample);
    if all.len() > limit {
        all.skip(all.len() - limit)
    } else {
        all
    }
}

/// The startup lag of a room of which enough is known.
pub open spec fn known_lag(samples: Seq<u64>, min_samples: nat) -> Option<int> {
    if samples.len() > 0 && samples.len() >= min_samples {
        Some(median(samples))
    } else {
        None
    }
}

/// The greatest lag among the rooms of which enough is known, or none at all.
pub open spec fn slowest_lag(
    samples: Map<Seq<char>, Seq<u64>>,
    zones: Seq<ZoneId>,
    min_samples: nat,
) -> int
    decreases zones.len(),
{
    if zones.len() == 0 {
        0
    } else {
        let rest = slowest_lag(samples, zones.drop_last(), min_samples);
        match known_lag(samples[zones.last()@], min_samples) {
            Some(lag) => if rest < lag {
                lag
            } else {
                rest
            },
            None => rest,
        }
    }
}

/// How long a room waits for the slowest room of a cohort, up to a limit. A
/// room of which too little is known does not wait.
pub open spec fn compensation(
    samples: Map<Seq<char>, Seq<u64>>,
    zones: Seq<ZoneId>,
    zone: Seq<char>,
    min_samples: nat,
    max: int,
) -> int {
    match known_lag(samples[zone], min_samples) {
        Some(lag) => {
            let behind = slowest_lag(samples, zones, min_samples) - lag;
            if behind <= 0 {
                0
            } else if behind > max {
                max
            } else {
                behind
            }
        },
        None => 0,
    }
}

impl View for StartupDelayEstimator {
    type V = Map<Seq<char>, Seq<u64>>;

    /// The samples of every room, oldest first.
    closed spec fn view(&self) -> Map<Seq<char>, Seq<u64>> {
        Map::new(|zone: Seq<char>| true, |zone: Seq<char>| self.samples_of(zone))
    }
}

impl StartupDelayEstimator {
    spec fn samples_of(self, zone: Seq<char>) -> Seq<u64> {
        if self.samples@.dom().contains(zone) {
            self.samples@[zone]@
        } else {
            Seq::empty()
        }
    }

    /// How many samples are kept of a room.
    pub closed spec fn limit(self) -> nat {
        self.sample_limit as nat
    }

    /// How many samples it takes before a room is compensated.
    pub closed spec fn needed(self) -> nat {
        self.min_samples as nat
    }

    /// An estimator without samples.
    pub fn new(sample_limit: usize, min_samples: usize) -> (r: Self)
        ensures
            r.limit() == sample_limit,
            r.needed() == min_samples,
            r@ == Map::new(|zone: Seq<char>| true, |zone: Seq<char>| Seq::<u64>::empty()),
    {
        let r = StartupDelayEstimator { sample_limit, min_samples, samples: TextMap::new() };
        assert(r@ =~= Map::new(|zone: Seq<char>| true, |zone: Seq<char>| Seq::<u64>::empty()));
        r
    }

    /// Takes the lag of a start as a sample of its room, in place of the oldest
    /// one where there are too many. A start without a measured step is none.
    pub fn record(&mut self, zone: &ZoneId, timing: &ZoneStartupTiming)
        ensures
            final(self).limit() == old(self).limit(),
            final(self).needed() == old(self).needed(),
            final(self)@ == match timing.lag() {
                Some(lag) => old(self)@.insert(
                    zone@,
                    rolled(old(self)@[zone@], lag, old(self).limit()),
                ),
                None => old(self)@,
            },
    {
        let lag: u64 = match timing.lag_ms() {
            Some(lag) => lag,
            None => return,
        };
        let ghost before = self.samples_of(zone@);
        let mut kept: Vec<u64> = Vec::new();
        if let Some(samples) = self.samples.get(zone.as_str()) {
            let skip: usize = if self.sample_limit == 0 {
                samples.len()
            } else if samples.len() >= self.sample_limit {
                samples.len() - (self.sample_limit - 1)
            } else {
                0
            };
            let mut i: usize = skip;
            while i < samples.len()
                invariant
                    skip <= i <= samples@.len(),
                    kept@ == samples@.subrange(skip as int, i as int),
                decreases samples@.len() - i,
            {
                kept.push(samples[i]);
                i = i + 1;
            }
        }
        if self.sample_limit > 0 {
            kept.push(lag);
        }
        assert(kept@ =~= rolled(before, lag, self.limit()));
        let ghost old_view = self@;
        self.samples.insert(zone.as_str().to_owned(), kept);
        assert(self@ =~= old_view.insert(zone@, rolled(before, lag, self.limit())));
    }

    /// The startup lag of a room of which enough is known.
    fn lag_of(&self, zone: &ZoneId) -> (r: Option<u64>)
        ensures
            match r {
                Some(lag) => known_lag(self@[zone@], self.needed()) == Some(lag as int),
                None => known_lag(self@[zone@], self.needed()) is None,
            },
    {
        match self.samples.get(zone.as_str()) {
            Some(samples) => if samples.len() > 0 && samples.len() >= self.min_samples {
                Some(median_of(samples))
            } else {
                None
            },
            None => None,
        }
    }

    /// How long a room waits for the slowest room among the given ones.
    pub fn automatic_delay_ms(&self, zone_ids: &[ZoneId], zone: &ZoneId, max_ms: u64) -> (r: u64)
        ensures
            r == compensation(self@, zone_ids@, zone@, self.needed(), max_ms as int),
    {
        let own: u64 = match self.lag_of(zone) {
            Some(lag) => lag,
            None => return 0,
        };
        let mut slowest: u64 = 0;
        let mut i: usize = 0;
        assert(zone_ids@.take(0) =~= Seq::<ZoneId>::empty());
        while i < zone_ids.len()
            invariant
                i <= zone_ids@.len(),
                slowest == slowest_lag(self@, zone_ids@.take(i as int), self.needed()),
            decreases zone_ids@.len() - i,
        {
            proof {
                let next = zone_ids@.take(i + 1);
                assert(next.drop_last() =~= zone_ids@.take(i as int));
                assert(next.last() == zone_ids@[i as int]);
            }
            if let Some(lag) = self.lag_of(&zone_ids[i]) {
                if slowest < lag {
                    slowest = lag;
                }
            }
            i = i + 1;
        }
        assert(zone_ids@.take(zone_ids@.len() as int) =~= zone_ids@);
        if slowest <= own {
            0
        } else if slowest - own > max_ms {
            max_ms
        } else {
            slowest - own
        }
    }
}

/// The slowest lag is at least that of each room among them.
proof fn lemma_slowest_lag(
    samples: Map<Seq<char>, Seq<u64>>,
    zones: Seq<ZoneId>,
    min_samples: nat,
    i: int,
)
    requires
        0 <= i < zones.len(),
        known_lag(samples[zones[i]@], min_samples) is Some,
    ensures
        slowest_lag(samples, zones, min_samples) >= known_lag(samples[zones[i]@], min_samples)->0,
    decreases zones.len(),
{
    if i < zones.len() - 1 {
        lemma_slowest_lag(samples, zones.drop_last(), min_samples, i);
    }
}

/// Every room of a cohort whose lag is known and within the limit behind the
/// slowest reaches the lag of the slowest room once its own delay is added. No
/// delay is longer than the limit.
pub proof fn compensated_rooms_line_up(
    samples: Map<Seq<char>, Seq<u64>>,
    zones: Seq<ZoneId>,
    min_samples: nat,
    max: int,
    i: int,
)
    requires
        max >= 0,
        0 <= i < zones.len(),
    ensures
        0 <= compensation(samples, zones, zones[i]@, min_samples, max) <= max,
        match known_lag(samples[zones[i]@], min_samples) {
            Some(lag) => {
                let slowest = slowest_lag(samples, zones, min_samples);
                let delay = compensation(samples, zones, zones[i]@, min_samples, max);
                &&& slowest - lag <= max ==> lag + delay == slowest
                &&& slowest - lag > max ==> delay == max
            },
            None => true,
        },
{
    if known_lag(samples[zones[i]@], min_samples) is Some {
        lemma_slowest_lag(samples, zones, min_samples, i);
    }
}

/// However many starts are recorded, no more samples of a room are kept than
/// the limit, and the latest one is kept unless the limit is zero.
pub proof fn samples_stay_within_the_limit(samples: Seq<u64>, sample: u64, limit: nat)
    ensures
        rolled(samples, sample, limit).len() <= limit,
        limit > 0 ==> rolled(samples, sample, limit).last() == sample,
{
}

// ---------------------------------------------------------------------------
// Offsets
// ---------------------------------------------------------------------------
/// A delay in milliseconds: the sum of its parts, as far as a delay can hold it.
pub open spec fn combined_delay(auto_ms: u64, manual_ms: i64, default_ms: i64) -> u64 {
    let sum = auto_ms + manual_ms + default_ms;
    if sum < 0 {
        0
    } else if sum > u64::MAX {
        u64::MAX
    } else {
        sum as u64
    }
}

/// The delay of a room from its compensation and the configured offsets; a
/// negative sum is no delay.
pub fn combine_sync_delay(auto_ms: u64, manual_ms: i64, default_ms: i64) -> (r: u64)
    ensures
        r == combined_delay(auto_ms, manual_ms, default_ms),
{
    let sum: i128 = auto_ms as i128 + manual_ms as i128 + default_ms as i128;
    if sum < 0 {
        0
    } else if sum > u64::MAX as i128 {
        u64::MAX
    } else {
        sum as u64
    }
}

/// The delay of a zone.
#[derive(Debug, PartialEq, Eq)]
pub struct ZoneDelay {
    pub zone_id: ZoneId,
    pub delay_ms: u64,
}

/// The greatest offset of at least one.
pub open spec fn greatest_offset(offsets: Seq<(String, i64)>) -> i64
    decreases offsets.len(),
{
    if offsets.len() <= 1 {
        offsets[0].1
    } else {
        let rest = greatest_offset(offsets.drop_last());
        if rest < offsets.last().1 {
            offsets.last().1
        } else {
            rest
        }
    }
}

proof fn lemma_greatest_offset(offsets: Seq<(String, i64)>, i: int)
    requires
        0 <= i < offsets.len(),
    ensures
        offsets[i].1 <= greatest_offset(offsets),
    decreases offsets.len(),
{
    if offsets.len() > 1 && i < offsets.len() - 1 {
        lemma_greatest_offset(offsets.drop_last(), i);
    }
}

pub(crate) proof fn lemma_greatest_is_one(offsets: Seq<(String, i64)>)
    requires
        offsets.len() > 0,
    ensures
        exists|i: int|
            0 <= i < offsets.len() && (#[trigger] offsets[i]).1 == greatest_offset(offsets),
    decreases offsets.len(),
{
    if offsets.len() > 1 {
        let rest = offsets.drop_last();
        lemma_greatest_is_one(rest);
        let i = choose|i: int|
            0 <= i < rest.len() && (#[trigger] rest[i]).1 == greatest_offset(rest);
        assert(offsets[i] == rest[i]);
        assert(offsets[offsets.len() - 1] == offsets.last());
    } else {
        assert(offsets[0].1 == greatest_offset(offsets));
    }
}

/// The delay of each zone, in dictionary order of the zones, that makes up for
/// what its offset is below the greatest one.
pub fn delays_from_offsets(offsets: &TextMap<i64>) -> (r: Vec<ZoneDelay>)
    ensures
        r@.len() == offsets.pairs().len(),
        forall|i: int|
            0 <= i < r@.len() ==> {
                &&& (#[trigger] r@[i]).zone_id@ == offsets.pairs()[i].0@
                &&& r@[i].delay_ms == greatest_offset(offsets.pairs()) - offsets.pairs()[i].1
            },
        forall|i: int, j: int|
            0 <= i < r@.len() && 0 <= j < r@.len() ==> (#[trigger] r@[i]).delay_ms
                + offsets.pairs()[i].1 == (#[trigger] r@[j]).delay_ms + offsets.pairs()[j].1,
        r@.len() > 0 ==> exists|i: int| 0 <= i < r@.len() && (#[trigger] r@[i]).delay_ms == 0,
{
    let mut r: Vec<ZoneDelay> = Vec::new();
    let n: usize = offsets.len();
    let ghost pairs = offsets.pairs();
    if n == 0 {
        return r;
    }
    let mut greatest: i64 = offsets.entry(0).1;
    let mut i: usize = 1;
    while i < n
        invariant
            1 <= i <= n,
            n == pairs.len(),
            pairs == offsets.pairs(),
            greatest == greatest_offset(pairs.take(i as int)),
        decreases n - i,
    {
        proof {
            let next = pairs.take(i + 1);
            assert(next.drop_last() =~= pairs.take(i as int));
            assert(next.last() == pairs[i as int]);
        }
        let offset: i64 = offsets.entry(i).1;
        if greatest < offset {
            greatest = offset;
        }
        i = i + 1;
    }
    assert(pairs.take(n as int) =~= pairs);
    let mut k: usize = 0;
    while k < n
        invariant
            k <= n,
            n == pairs.len(),
            pairs == offsets.pairs(),
            greatest == greatest_offset(pairs),
            r@.len() == k,
            forall|i: int|
                0 <= i < k ==> {
                    &&& (#[trigger] r@[i]).zone_id@ == pairs[i].0@
                    &&& r@[i].delay_ms == greatest - pairs[i].1
                },
        decreases n - k,
    {
        proof {
            lemma_greatest_offset(pairs, k as int);
        }
        let pair = offsets.entry(k);
        let delay_ms: u64 = (greatest as i128 - pair.1 as i128) as u64;
        r.push(ZoneDelay { zone_id: ZoneId::new(pair.0.as_str()), delay_ms });
        k = k + 1;
    }
    proof {
        lemma_greatest_is_one(pairs);
        let i = choose|i: int|
            0 <= i < pairs.len() && (#[trigger] pairs[i]).1 == greatest_offset(pairs);
        assert(r@[i].delay_ms == 0);
    }
    r
}

/// Once every zone is delayed, offset and delay add up to the same for all of
/// them; the zone with the greatest offset is not delayed.
pub proof fn delays_line_up_with_the_greatest_offset(offsets: Seq<(String, i64)>, i: int, j: int)
    requires
        0 <= i < offsets.len(),
        0 <= j < offsets.len(),
    ensures
        ({
            let delay = |k: int| greatest_offset(offsets) - offsets[k].1;
            &&& delay(i) >= 0
            &&& offsets[i].1 + delay(i) == offsets[j].1 + delay(j)
            &&& (offsets[i].1 == greatest_offset(offsets) <==> delay(i) == 0)
        }),
{
    lemma_greatest_offset(offsets, i);
}

// ---------------------------------------------------------------------------
// Laws of lags and delays
// ---------------------------------------------------------------------------
/// How many of the values have a property.
pub open spec fn count_of(s: Seq<u64>, p: spec_fn(u64) -> bool) -> nat
    decreases s.len(),
{
    if s.len() == 0 {
        0
    } else {
        count_of(s.drop_last(), p) + if p(s.last()) {
            1nat
        } else {
            0
        }
    }
}

/// How many of the values are at most a given one.
pub open spec fn count_upto(s: Seq<u64>, v: u64) -> nat {
    count_of(s, |x: u64| x <= v)
}

/// How many of the values are at least a given one.
pub open spec fn count_from(s: Seq<u64>, v: u64) -> nat {
    count_of(s, |x: u64| x >= v)
}

proof fn lemma_count_is_of_the_values(s: Seq<u64>, p: spec_fn(u64) -> bool)
    ensures
        count_of(s, p) == s.to_multiset().filter(p).len(),
    decreases s.len(),
{
    broadcast use vstd::seq_lib::group_to_multiset_ensures;
    broadcast use vstd::multiset::group_multiset_axioms;

    if s.len() == 0 {
        assert(s.to_multiset().filter(p) =~= vstd::multiset::Multiset::empty());
    } else {
        let rest = s.drop_last();
        let x = s.last();
        lemma_count_is_of_the_values(rest, p);
        assert(s =~= rest.push(x));
        assert(s.to_multiset() =~= rest.to_multiset().insert(x));
        if p(x) {
            assert(s.to_multiset().filter(p) =~= rest.to_multiset().filter(p).insert(x));
        } else {
            assert(s.to_multiset().filter(p) =~= rest.to_multiset().filter(p));
        }
    }
}

/// How many values have a property that the first `k` of them have, and where
/// only these have it.
proof fn lemma_count_first(s: Seq<u64>, p: spec_fn(u64) -> bool, k: int)
    requires
        0 <= k <= s.len(),
        forall|i: int| 0 <= i < k ==> p(#[trigger] s[i]),
    ensures
        count_of(s, p) >= k,
        (forall|i: int| k <= i < s.len() ==> !p(#[trigger] s[i])) ==> count_of(s, p) == k,
    decreases s.len(),
{
    if s.len() > 0 {
        let rest = s.drop_last();
        assert forall|i: int| 0 <= i < rest.len() implies rest[i] == s[i] by {}
        if k < s.len() {
            lemma_count_first(rest, p, k);
        } else {
            lemma_count_first(rest, p, k - 1);
            assert(p(s[k - 1]));
        }
        if forall|i: int| k <= i < s.len() ==> !p(#[trigger] s[i]) {
            assert forall|i: int| k <= i < rest.len() implies !p(#[trigger] rest[i]) by {
                assert(!p(s[i]));
            }
            if k < s.len() {
                assert(!p(s[s.len() - 1]));
            }
        }
    }
}

/// How many values have a property that those from the `k`th on have, and where
/// only these have it.
proof fn lemma_count_last(s: Seq<u64>, p: spec_fn(u64) -> bool, k: int)
    requires
        0 <= k <= s.len(),
        forall|i: int| k <= i < s.len() ==> p(#[trigger] s[i]),
    ensures
        count_of(s, p) >= s.len() - k,
        (forall|i: int| 0 <= i < k ==> !p(#[trigger] s[i])) ==> count_of(s, p) == s.len() - k,
    decreases s.len(),
{
    if s.len() > 0 {
        let rest = s.drop_last();
        assert forall|i: int| 0 <= i < rest.len() implies rest[i] == s[i] by {}
        if k < s.len() {
            assert(p(s[s.len() - 1]));
            lemma_count_last(rest, p, k);
        } else {
            lemma_count_last(rest, p, k - 1);
        }
        if forall|i: int| 0 <= i < k ==> !p(#[trigger] s[i]) {
            assert forall|i: int| 0 <= i < k && i < rest.len() implies !p(#[trigger] rest[i]) by {
                assert(!p(s[i]));
            }
            if k == s.len() {
                assert(!p(s[s.len() - 1]));
            }
        }
    }
}

/// The lag of a room of which enough is known is the median of its samples: it
/// is a sample that more than half are not above and more than half are not
/// below, or, where half of them lie below a gap and half above it, it is half
/// way between the samples at the gap. Nothing is known of a room without
/// samples, or with fewer than are needed.
pub proof fn lags_are_medians(samples: Seq<u64>, min_samples: nat)
    ensures
        known_lag(samples, min_samples) is Some <==> samples.len() > 0 && samples.len()
            >= min_samples,
        known_lag(samples, min_samples) matches Some(lag) ==> exists|low: u64, high: u64| #[trigger]
            samples.contains(low) && #[trigger] samples.contains(high) && {
                &&& lag == (low + high) / 2
                &&& low <= high
                &&& low == high ==> 2 * count_upto(samples, low) > samples.len() && 2 * count_from(
                    samples,
                    low,
                ) > samples.len()
                &&& low < high ==> 2 * count_upto(samples, low) == samples.len() && 2 * count_from(
                    samples,
                    high,
                ) == samples.len()
            },
{
    if samples.len() > 0 && samples.len() >= min_samples {
        let leq = |a: u64, b: u64| a <= b;
        let t = ascending(samples);
        let n = samples.len() as int;
        assert(vstd::relations::total_ordering(leq));
        samples.lemma_sort_by_ensures(leq);
        assert(t.len() == n) by {
            broadcast use vstd::seq_lib::group_to_multiset_ensures;

            assert(t.to_multiset().len() == t.len());
            assert(samples.to_multiset().len() == samples.len());
        }
        let mid = n / 2;
        let low = if n % 2 == 1 {
            t[mid]
        } else {
            t[mid - 1]
        };
        let high = t[mid];
        assert(samples.contains(low) && samples.contains(high)) by {
            if !samples.contains(low) {
                assert(!t.contains(low));
            }
            if !samples.contains(high) {
                assert(!t.contains(high));
            }
        }
        assert forall|i: int, j: int| 0 <= i <= j < n implies t[i] <= t[j] by {
            if i < j {
                assert(leq(t[i], t[j]));
            }
        }
        let below = |x: u64| x <= low;
        let above = |x: u64| x >= high;
        lemma_count_is_of_the_values(samples, below);
        lemma_count_is_of_the_values(t, below);
        lemma_count_is_of_the_values(samples, above);
        lemma_count_is_of_the_values(t, above);
        if low == high {
            lemma_count_first(t, below, mid + 1);
            lemma_count_last(
                t,
                above,
                if n % 2 == 1 {
                    mid
                } else {
                    mid - 1
                },
            );
        } else {
            lemma_count_first(t, below, mid);
            lemma_count_last(t, above, mid);
        }
        assert(count_upto(samples, low) == count_of(samples, below));
        assert(count_from(samples, high) == count_of(samples, above));
    }
}

/// The lag of a start is the last of its steps: no measured step took longer,
/// and one took as long. Without a measured step there is no lag.
pub proof fn the_lag_is_the_longest_step(timing: ZoneStartupTiming)
    ensures
        timing.lag() is None <==> timing.set_uri_ms is None && timing.subscriber_connect_ms is None
            && timing.first_bytes_ms is None && timing.play_ms is None,
        timing.lag() matches Some(lag) ==> {
            &&& timing.set_uri_ms matches Some(ms) ==> ms <= lag
            &&& timing.subscriber_connect_ms matches Some(ms) ==> ms <= lag
            &&& timing.first_bytes_ms matches Some(ms) ==> ms <= lag
            &&& timing.play_ms matches Some(ms) ==> ms <= lag
            &&& timing.set_uri_ms == Some(lag) || timing.subscriber_connect_ms == Some(lag)
                || timing.first_bytes_ms == Some(lag) || timing.play_ms == Some(lag)
        },
{
}

/// The samples that are kept are the latest ones, in their order, as many as
/// there are and as may be kept.
pub proof fn the_latest_samples_are_kept(samples: Seq<u64>, sample: u64, limit: nat, back: int)
    requires
        0 <= back < rolled(samples, sample, limit).len(),
    ensures
        ({
            let kept = rolled(samples, sample, limit);
            &&& kept.len() <= samples.len() + 1
            &&& kept.len() == limit || kept.len() == samples.len() + 1
            &&& kept.len() <= limit
            &&& kept[kept.len() - 1 - back] == if back == 0 {
                sample
            } else {
                samples[samples.len() - back]
            }
        }),
{
}

/// The slowest lag is that of one of the rooms, and no room of which enough is
/// known lags more. Without such a room it is none.
pub proof fn the_slowest_lag_is_that_of_a_room(
    samples: Map<Seq<char>, Seq<u64>>,
    zones: Seq<ZoneId>,
    min_samples: nat,
)
    ensures
        ({
            let slowest = slowest_lag(samples, zones, min_samples);
            &&& slowest >= 0
            &&& forall|i: int|
                0 <= i < zones.len() ==> (known_lag(samples[(#[trigger] zones[i])@], min_samples)
                    matches Some(lag) ==> lag <= slowest)
            &&& slowest == 0 || exists|i: int|
                0 <= i < zones.len() && known_lag(samples[(#[trigger] zones[i])@], min_samples)
                    == Some(slowest)
        }),
    decreases zones.len(),
{
    let slowest = slowest_lag(samples, zones, min_samples);
    assert forall|i: int| 0 <= i < zones.len() implies (known_lag(
        samples[(#[trigger] zones[i])@],
        min_samples,
    ) matches Some(lag) ==> lag <= slowest) by {
        if known_lag(samples[zones[i]@], min_samples) is Some {
            lemma_slowest_lag(samples, zones, min_samples, i);
        }
    }
    if zones.len() > 0 {
        let rest = zones.drop_last();
        the_slowest_lag_is_that_of_a_room(samples, rest, min_samples);
        let before = slowest_lag(samples, rest, min_samples);
        if slowest != 0 {
            if slowest == before {
                let i = choose|i: int|
                    0 <= i < rest.len() && known_lag(samples[(#[trigger] rest[i])@], min_samples)
                        == Some(before);
                assert(zones[i] == rest[i]);
            } else {
                assert(zones[zones.len() - 1] == zones.last());
            }
        }
    }
}

/// A room waits for as long as the slowest of its cohort lags more than itself,
/// but no longer than the limit. It does not wait for a faster room, nor where
/// too little is known of it.
pub proof fn rooms_wait_for_slower_rooms(
    samples: Map<Seq<char>, Seq<u64>>,
    zones: Seq<ZoneId>,
    zone: Seq<char>,
    min_samples: nat,
    max: int,
    i: int,
)
    requires
        max >= 0,
        0 <= i < zones.len(),
    ensures
        ({
            let delay = compensation(samples, zones, zone, min_samples, max);
            &&& 0 <= delay <= max
            &&& known_lag(samples[zone], min_samples) is None ==> delay == 0
            &&& known_lag(samples[zone], min_samples) matches Some(own) ==> {
                &&& known_lag(samples[zones[i]@], min_samples) matches Some(lag) ==> own + delay
                    >= lag || delay == max
                &&& delay > 0 ==> exists|k: int|
                    0 <= k < zones.len() && (known_lag(samples[(#[trigger] zones[k])@], min_samples)
                        matches Some(lag) && own + delay <= lag && (own + delay == lag || delay
                        == max))
            }
        }),
{
    the_slowest_lag_is_that_of_a_room(samples, zones, min_samples);
    if known_lag(samples[zones[i]@], min_samples) is Some {
        lemma_slowest_lag(samples, zones, min_samples, i);
    }
    if known_lag(samples[zone], min_samples) is Some {
        lags_are_medians(samples[zone], min_samples);
    }
}

/// A delay is the sum of its parts wherever that is a delay; a room that should
/// play before the others is not delayed.
pub proof fn delays_add_up(auto_ms: u64, manual_ms: i64, default_ms: i64)
    ensures
        0 <= auto_ms + manual_ms + default_ms <= u64::MAX ==> combined_delay(
            auto_ms,
            manual_ms,
            default_ms,
        ) == auto_ms + manual_ms + default_ms,
        auto_ms + manual_ms + default_ms < 0 ==> combined_delay(auto_ms, manual_ms, default_ms) == 0,
        auto_ms + manual_ms + default_ms > u64::MAX ==> combined_delay(
            auto_ms,
            manual_ms,
            default_ms,
        ) == u64::MAX,
{
}

// ---------------------------------------------------------------------------
// What callers see
// ---------------------------------------------------------------------------
/// A room is told to wait for as long as the slowest room of its cohort lags more
/// than itself, the lag of a room being the median of what was measured, and no
/// longer than the limit.
pub proof fn callers_are_told_to_wait_for_slower_rooms(
    estimator: &StartupDelayEstimator,
    zones: &[ZoneId],
    zone: &ZoneId,
    max_ms: u64,
    r: u64,
    i: int,
)
    requires
        call_ensures(StartupDelayEstimator::automatic_delay_ms, (estimator, zones, zone, max_ms), r),
        0 <= i < zones@.len(),
    ensures
        r <= max_ms,
        known_lag(estimator@[zone@], estimator.needed()) is None ==> r == 0,
        known_lag(estimator@[zone@], estimator.needed()) matches Some(own) ==> (known_lag(
            estimator@[zones@[i]@],
            estimator.needed(),
        ) matches Some(lag) ==> own + r >= lag || r == max_ms),
        known_lag(estimator@[zone@], estimator.needed()) matches Some(own) ==> r > 0 ==> exists|k: int|
            0 <= k < zones@.len() && (known_lag(
                estimator@[(#[trigger] zones@[k])@],
                estimator.needed(),
            ) matches Some(lag) && own + r <= lag),
{
    rooms_wait_for_slower_rooms(
        estimator@,
        zones@,
        zone@,
        estimator.needed(),
        max_ms as int,
        i,
    );
}

/// What was measured of a room is its latest sample, and no other room has it.
pub proof fn callers_record_the_latest_sample(
    estimator: &mut StartupDelayEstimator,
    zone: &ZoneId,
    timing: &ZoneStartupTiming,
    other: Seq<char>,
    back: int,
)
    requires
        call_ensures(StartupDelayEstimator::record, (estimator, zone, timing), ()),
    ensures
        other != zone@ ==> final(estimator)@[other] == old(estimator)@[other],
        timing.lag() is None ==> final(estimator)@ == old(estimator)@,
        timing.lag() matches Some(lag) ==> old(estimator).limit() > 0 ==> {
            let samples = final(estimator)@[zone@];
            samples.len() > 0 && samples.last() == lag
        },
        timing.lag() is Some && old(estimator)@[zone@].len() < old(estimator).limit()
            ==> final(estimator)@[zone@].len() == old(estimator)@[zone@].len() + 1,
        timing.lag() is Some && old(estimator)@[zone@].len() == old(estimator).limit()
            ==> final(estimator)@[zone@].len() == old(estimator).limit(),
        timing.lag() is Some && 0 < back < final(estimator)@[zone@].len() ==> {
            let before = old(estimator)@[zone@];
            let samples = final(estimator)@[zone@];
            back <= before.len() && samples[samples.len() - 1 - back] == before[before.len() - back]
        },
        final(estimator).limit() == old(estimator).limit(),
        final(estimator).needed() == old(estimator).needed(),
{
    if let Some(lag) = timing.lag() {
        if 0 < back < final(estimator)@[zone@].len() {
            the_latest_samples_are_kept(
                old(estimator)@[zone@],
                lag,
                old(estimator).limit(),
                back,
            );
        }
    }
}

/// Nothing is known of any room at first.
pub proof fn callers_begin_without_samples(
    limit: usize,
    needed: usize,
    r: StartupDelayEstimator,
    zone: Seq<char>,
)
    requires
        call_ensures(StartupDelayEstimator::new, (limit, needed), r),
    ensures
        r@[zone].len() == 0,
        r.limit() == limit,
        r.needed() == needed,
        known_lag(r@[zone], r.needed()) is None,
{
}

/// The lag that a caller gets of a start is its longest step.
pub proof fn callers_get_the_longest_step(timing: &ZoneStartupTiming, r: Option<u64>)
    requires
        call_ensures(ZoneStartupTiming::lag_ms, (timing,), r),
    ensures
        r is None <==> timing.set_uri_ms is None && timing.subscriber_connect_ms is None
            && timing.first_bytes_ms is None && timing.play_ms is None,
        r matches Some(lag) ==> {
            &&& timing.set_uri_ms matches Some(ms) ==> ms <= lag
            &&& timing.subscriber_connect_ms matches Some(ms) ==> ms <= lag
            &&& timing.first_bytes_ms matches Some(ms) ==> ms <= lag
            &&& timing.play_ms matches Some(ms) ==> ms <= lag
            &&& timing.set_uri_ms == Some(lag) || timing.subscriber_connect_ms == Some(lag)
                || timing.first_bytes_ms == Some(lag) || timing.play_ms == Some(lag)
        },
{
}

/// The delay that a caller gets is the sum of its parts wherever that is a delay.
pub proof fn callers_get_the_sum(auto_ms: u64, manual_ms: i64, default_ms: i64, r: u64)
    requires
        call_ensures(combine_sync_delay, (auto_ms, manual_ms, default_ms), r),
    ensures
        0 <= auto_ms + manual_ms + default_ms <= u64::MAX ==> r == auto_ms + manual_ms + default_ms,
        auto_ms + manual_ms + default_ms < 0 ==> r == 0,
{
}

/// A compensation is no less than none and no more than the limit.
pub proof fn lemma_compensation_within(
    samples: Map<Seq<char>, Seq<u64>>,
    zones: Seq<ZoneId>,
    zone: Seq<char>,
    min_samples: nat,
    max: int,
)
    requires
        max >= 0,
    ensures
        0 <= compensation(samples, zones, zone, min_samples, max) <= max,
{
}

} // verus!
