//! The price cache: the current price of each asset, and for each asset a
//! time series with at most one point per minute, pruned to a retention
//! window.

use crate::fixed::Amount;
use crate::orders::SettlementError;
use std::collections::HashMap;
use vstd::prelude::*;

verus! {

broadcast use vstd::std_specs::hash::group_hash_axioms;

/// Width of a history bucket, in seconds.
pub const BUCKET_SECONDS: i64 = 60;

/// How long a history point is kept, in seconds.
pub const RETENTION_SECONDS: i64 = 86400;

/// The current price of one asset.
#[derive(Clone, Copy, Debug, PartialEq, Eq, Structural)]
pub struct PriceRecord {
    pub asset_id: i32,
    pub price: Amount,
    pub updated_at: i64,
}

/// One point of an asset's price history.
#[derive(Clone, Copy, Debug, PartialEq, Eq, Structural)]
pub struct PriceHistoryPoint {
    /// Start of the minute that the point stands for.
    pub bucket: i64,
    pub price: Amount,
    /// The moment at which the price was emitted.
    pub emitted_at: i64,
}

/// The start of the minute that `timestamp` lies in.
pub open spec fn bucket_start(timestamp: int) -> int {
    (timestamp / 60) * 60
}

/// The buckets of `s` rise strictly, so no bucket has two points and the
/// last point is the most recent.
pub open spec fn strictly_rising(s: Seq<PriceHistoryPoint>) -> bool {
    forall|i: int, j: int| 0 <= i < j < s.len() ==> s[i].bucket < s[j].bucket
}

/// Whether a point for the bucket `bucket` is to be written after `s`: only
/// where the most recent point of `s` is of an older bucket.
pub open spec fn accepts(s: Seq<PriceHistoryPoint>, bucket: int) -> bool {
    s.len() == 0 || s.last().bucket < bucket
}

/// The series after a price emitted at `timestamp` was offered to it.
pub open spec fn appended(s: Seq<PriceHistoryPoint>, price: Amount, timestamp: i64) -> Seq<
    PriceHistoryPoint,
> {
    if accepts(s, bucket_start(timestamp as int)) {
        s.push(
            PriceHistoryPoint {
                bucket: bucket_start(timestamp as int) as i64,
                price: price,
                emitted_at: timestamp,
            },
        )
    } else {
        s
    }
}

/// The points of `s` whose bucket is not before `cutoff`.
pub open spec fn pruned(s: Seq<PriceHistoryPoint>, cutoff: i64) -> Seq<PriceHistoryPoint> {
    s.filter(|p: PriceHistoryPoint| p.bucket >= cutoff)
}

/// The number of points of `s` that stand for the bucket `bucket`.
pub open spec fn points_in_bucket(s: Seq<PriceHistoryPoint>, bucket: int) -> nat {
    s.filter(|p: PriceHistoryPoint| p.bucket == bucket).len()
}

/// Offering a price keeps a strictly rising history strictly rising.
pub proof fn lemma_appended_rising(s: Seq<PriceHistoryPoint>, price: Amount, timestamp: i64)
    requires
        strictly_rising(s),
        timestamp >= i64::MIN + BUCKET_SECONDS,
    ensures
        strictly_rising(appended(s, price, timestamp)),
{
}

/// Two prices offered within one minute leave what the first one left: the
/// second offer writes nothing.
pub proof fn lemma_append_idempotent(
    s: Seq<PriceHistoryPoint>,
    first_price: Amount,
    first_at: i64,
    second_price: Amount,
    second_at: i64,
)
    requires
        first_at >= i64::MIN + BUCKET_SECONDS,
        second_at >= i64::MIN + BUCKET_SECONDS,
        bucket_start(first_at as int) == bucket_start(second_at as int),
    ensures
        appended(appended(s, first_price, first_at), second_price, second_at) == appended(s, first_price, first_at),
{
}

/// A strictly rising history holds at most one point for any bucket.
pub proof fn lemma_one_point_per_bucket(s: Seq<PriceHistoryPoint>, bucket: int)
    requires
        strictly_rising(s),
    ensures
        points_in_bucket(s, bucket) <= 1,
        points_in_bucket(s, bucket) == 1 <==> exists|i: int|
            0 <= i < s.len() && #[trigger] s[i].bucket == bucket,
    decreases s.len(),
{
    reveal(Seq::filter);
    let pred = |p: PriceHistoryPoint| p.bucket == bucket;
    if s.len() > 0 {
        let init = s.drop_last();
        lemma_one_point_per_bucket(init, bucket);
        if s.last().bucket == bucket {
            if points_in_bucket(init, bucket) == 1 {
                let i = choose|i: int| 0 <= i < init.len() && #[trigger] init[i].bucket == bucket;
                assert(s[i].bucket < s[s.len() - 1].bucket);
            }
            assert(points_in_bucket(init, bucket) == 0);
            assert(s[s.len() - 1].bucket == bucket);
        } else {
            if points_in_bucket(init, bucket) == 1 {
                let i = choose|i: int| 0 <= i < init.len() && #[trigger] init[i].bucket == bucket;
                assert(s[i].bucket == bucket);
            }
            if exists|i: int| 0 <= i < s.len() && #[trigger] s[i].bucket == bucket {
                let i = choose|i: int| 0 <= i < s.len() && #[trigger] s[i].bucket == bucket;
                assert(init[i].bucket == bucket);
            }
        }
    }
}

/// Two prices offered within one minute, to a history whose points are not
/// of a later minute, leave exactly one point for that minute.
pub proof fn lemma_same_bucket_one_point(
    s: Seq<PriceHistoryPoint>,
    first_price: Amount,
    first_at: i64,
    second_price: Amount,
    second_at: i64,
)
    requires
        strictly_rising(s),
        first_at >= i64::MIN + BUCKET_SECONDS,
        second_at >= i64::MIN + BUCKET_SECONDS,
        bucket_start(first_at as int) == bucket_start(second_at as int),
        s.len() > 0 ==> s.last().bucket <= bucket_start(first_at as int),
    ensures
        points_in_bucket(
            appended(appended(s, first_price, first_at), second_price, second_at),
            bucket_start(first_at as int),
        ) == 1,
{
    let once = appended(s, first_price, first_at);
    lemma_append_idempotent(s, first_price, first_at, second_price, second_at);
    lemma_appended_rising(s, first_price, first_at);
    lemma_one_point_per_bucket(once, bucket_start(first_at as int));
    assert(once.len() > 0);
    assert(once[once.len() - 1].bucket == bucket_start(first_at as int));
}

/// After pruning no point is older than the cutoff, every point that is not
/// older is still there, and nothing was added.
pub proof fn lemma_pruned_is_recent(s: Seq<PriceHistoryPoint>, cutoff: i64)
    ensures
        forall|i: int|
            0 <= i < pruned(s, cutoff).len() ==> (#[trigger] pruned(s, cutoff)[i]).bucket >= cutoff,
        forall|i: int|
            0 <= i < s.len() && s[i].bucket >= cutoff ==> pruned(s, cutoff).contains(
                #[trigger] s[i],
            ),
        forall|i: int|
            0 <= i < pruned(s, cutoff).len() ==> s.contains(#[trigger] pruned(s, cutoff)[i]),
        pruned(s, cutoff).len() <= s.len(),
    decreases s.len(),
{
    reveal(Seq::filter);
    let pred = |p: PriceHistoryPoint| p.bucket >= cutoff;
    if s.len() > 0 {
        let init = s.drop_last();
        lemma_pruned_is_recent(init, cutoff);
        let f = pruned(s, cutoff);
        let g = pruned(init, cutoff);
        assert forall|i: int| 0 <= i < s.len() && s[i].bucket >= cutoff implies f.contains(
            #[trigger] s[i],
        ) by {
            if i < s.len() - 1 {
                assert(init[i] == s[i]);
                let k = choose|k: int| 0 <= k < g.len() && g[k] == init[i];
                assert(f[k] == s[i]);
            } else {
                assert(f[f.len() - 1] == s[i]);
            }
        }
        assert forall|i: int| 0 <= i < f.len() implies s.contains(#[trigger] f[i]) by {
            if i < g.len() {
                let k = choose|k: int| 0 <= k < init.len() && init[k] == g[i];
                assert(s[k] == f[i]);
            } else {
                assert(s[s.len() - 1] == f[i]);
            }
        }
    }
}

/// The start of the minute that `timestamp` lies in.
pub fn bucket_of(timestamp: i64) -> (r: i64)
    requires
        timestamp >= i64::MIN + BUCKET_SECONDS,
    ensures
        r == bucket_start(timestamp as int),
        r <= timestamp < r + BUCKET_SECONDS,
        r % BUCKET_SECONDS == 0,
{
    let rem: i64 = timestamp % 60;
    if rem < 0 {
        timestamp - rem - 60
    } else {
        timestamp - rem
    }
}

/// The moment before which history is no longer kept, seen from `now`.
pub fn retention_cutoff(now: i64) -> (r: i64)
    requires
        now >= i64::MIN + RETENTION_SECONDS,
    ensures
        r == now - RETENTION_SECONDS,
{
    now - RETENTION_SECONDS
}

/// What the cache holds, as mathematical values.
pub struct PriceCacheView {
    /// The current price of each asset that has one.
    pub current: Map<i32, PriceRecord>,
    /// The history of each asset that has one, oldest point first.
    pub history: Map<i32, Seq<PriceHistoryPoint>>,
}

impl PriceCacheView {
    /// The current price of `asset`, if the cache holds one.
    pub open spec fn price(self, asset: i32) -> Option<PriceRecord> {
        if self.current.contains_key(asset) {
            Some(self.current[asset])
        } else {
            None
        }
    }

    /// The history of `asset`, oldest point first; empty if it has none.
    pub open spec fn series(self, asset: i32) -> Seq<PriceHistoryPoint> {
        if self.history.contains_key(asset) {
            self.history[asset]
        } else {
            Seq::empty()
        }
    }

    /// The cache with the history of `asset` replaced.
    pub open spec fn with_series(self, asset: i32, s: Seq<PriceHistoryPoint>) -> PriceCacheView {
        PriceCacheView { history: self.history.insert(asset, s), ..self }
    }

    /// The cache with the current price of `asset` replaced.
    pub open spec fn with_price(self, asset: i32, record: PriceRecord) -> PriceCacheView {
        PriceCacheView { current: self.current.insert(asset, record), ..self }
    }
}

/// The current price of `asset` in the cache, if there is one.
pub open spec fn cached_price(cache: PriceCacheView, asset: i32) -> Option<Amount> {
    match cache.price(asset) {
        Some(record) => Some(record.price),
        None => None,
    }
}

/// The price cache.
pub struct PriceCache {
    current: HashMap<i32, PriceRecord>,
    history: HashMap<i32, Vec<PriceHistoryPoint>>,
}

impl PriceCache {
    /// What the cache holds.
    pub closed spec fn view(&self) -> PriceCacheView {
        PriceCacheView {
            current: self.current@,
            history: Map::new(
                |a: i32| self.history@.contains_key(a),
                |a: i32| self.history@[a]@,
            ),
        }
    }

    /// Every history rises strictly by bucket.
    pub closed spec fn wf(&self) -> bool {
        forall|a: i32| #[trigger]
            self.history@.contains_key(a) ==> strictly_rising(self.history@[a]@)
    }

    /// In a well-formed cache every history rises strictly by bucket.
    pub proof fn lemma_series_rising(&self, asset: i32)
        requires
            self.wf(),
        ensures
            strictly_rising(self@.series(asset)),
    {
    }

    /// A cold cache.
    pub fn new() -> (r: PriceCache)
        ensures
            r.wf(),
            r@.current == Map::<i32, PriceRecord>::empty(),
            r@.history == Map::<i32, Seq<PriceHistoryPoint>>::empty(),
    {
        let r = PriceCache { current: HashMap::new(), history: HashMap::new() };
        assert(r@.history =~= Map::<i32, Seq<PriceHistoryPoint>>::empty());
        r
    }

    /// The current price of `asset_id`; `None` means that the cache is cold.
    pub fn get_current(&self, asset_id: i32) -> (r: Option<PriceRecord>)
        ensures
            r == self@.price(asset_id),
    {
        match self.current.get(&asset_id) {
            Some(rec) => Some(*rec),
            None => None,
        }
    }

    /// The current price of `asset_id` alone, if the cache holds one.
    pub fn price_of(&self, asset_id: i32) -> (r: Option<Amount>)
        ensures
            r == cached_price(self@, asset_id),
    {
        match self.current.get(&asset_id) {
            Some(rec) => Some(rec.price),
            None => None,
        }
    }

    /// Overwrites the current price of `asset_id`.
    pub fn set_current(&mut self, asset_id: i32, price: Amount, timestamp: i64)
        requires
            old(self).wf(),
        ensures
            final(self).wf(),
            final(self)@ == old(self)@.with_price(
                asset_id,
                (PriceRecord { asset_id: asset_id, price: price, updated_at: timestamp }),
            ),
    {
        self.current.insert(
            asset_id,
            PriceRecord { asset_id: asset_id, price: price, updated_at: timestamp },
        );
        assert(self@.history =~= old(self)@.history);
    }

    /// Offers a price emitted at `timestamp` to the history of `asset_id`.
    /// The point is written only where the most recent point is of an older
    /// minute; the result says whether it was written.
    pub fn append_history(&mut self, asset_id: i32, price: Amount, timestamp: i64) -> (written:
        bool)
        requires
            old(self).wf(),
            timestamp >= i64::MIN + BUCKET_SECONDS,
        ensures
            final(self).wf(),
            written == accepts(old(self)@.series(asset_id), bucket_start(timestamp as int)),
            final(self)@.current == old(self)@.current,
            final(self)@.series(asset_id) == appended(
                old(self)@.series(asset_id),
                price,
                timestamp,
            ),
            forall|a: i32| a != asset_id ==> final(self)@.series(a) == old(self)@.series(a),
    {
        let bucket = bucket_of(timestamp);
        let point = PriceHistoryPoint { bucket: bucket, price: price, emitted_at: timestamp };
        let mut series: Vec<PriceHistoryPoint> = match self.history.remove(&asset_id) {
            Some(v) => v,
            None => Vec::new(),
        };
        assert(series@ == old(self)@.series(asset_id));
        assert(strictly_rising(series@));
        let n = series.len();
        let write = n == 0 || series[n - 1].bucket < bucket;
        if write {
            series.push(point);
        }
        self.history.insert(asset_id, series);
        proof {
            assert(final(self)@.series(asset_id) == appended(
                old(self)@.series(asset_id),
                price,
                timestamp,
            ));
            assert forall|a: i32| a != asset_id implies final(self)@.series(a) == old(
                self,
            )@.series(a) by {}
        }
        write
    }

    /// Removes from the history of `asset_id` every point whose bucket is
    /// before `older_than`. Other assets are left alone.
    pub fn prune_history(&mut self, asset_id: i32, older_than: i64)
        requires
            old(self).wf(),
        ensures
            final(self).wf(),
            final(self)@.current == old(self)@.current,
            final(self)@.series(asset_id) == pruned(old(self)@.series(asset_id), older_than),
            forall|a: i32| a != asset_id ==> final(self)@.series(a) == old(self)@.series(a),
    {
        let series: Vec<PriceHistoryPoint> = match self.history.remove(&asset_id) {
            Some(v) => v,
            None => {
                proof {
                    assert(pruned(Seq::<PriceHistoryPoint>::empty(), older_than)
                        =~= Seq::<PriceHistoryPoint>::empty()) by {
                        reveal(Seq::filter);
                    }
                    assert(self.history@ =~= old(self).history@);
                }
                return ;
            },
        };
        assert(series@ == old(self)@.series(asset_id));
        let kept = keep_recent(&series, older_than);
        self.history.insert(asset_id, kept);
        proof {
            assert forall|a: i32| a != asset_id implies final(self)@.series(a) == old(
                self,
            )@.series(a) by {}
        }
    }

    /// The history of `asset_id`, oldest point first.
    pub fn history(&self, asset_id: i32) -> (r: Vec<PriceHistoryPoint>)
        ensures
            r@ == self@.series(asset_id),
    {
        match self.history.get(&asset_id) {
            Some(v) => copy_points(v),
            None => Vec::new(),
        }
    }
}

/// The current price of `asset_id`, or the failure that a cold cache is to
/// an operation that needs the price.
pub fn get_price_by_asset_id(cache: &PriceCache, asset_id: i32) -> (r: Result<
    Amount,
    SettlementError,
>)
    ensures
        r == match cached_price(cache@, asset_id) {
            Some(p) => Ok::<Amount, SettlementError>(p),
            None => Err::<Amount, SettlementError>(SettlementError::PriceUnavailable),
        },
{
    match cache.price_of(asset_id) {
        Some(p) => Ok(p),
        None => Err(SettlementError::PriceUnavailable),
    }
}

fn copy_points(v: &Vec<PriceHistoryPoint>) -> (r: Vec<PriceHistoryPoint>)
    ensures
        r@ == v@,
{
    let mut out: Vec<PriceHistoryPoint> = Vec::new();
    let mut i: usize = 0;
    while i < v.len()
        invariant
            0 <= i <= v.len(),
            out@ == v@.subrange(0, i as int),
        decreases v.len() - i,
    {
        out.push(v[i]);
        assert(v@.subrange(0, i + 1) =~= v@.subrange(0, i as int).push(v@[i as int]));
        i += 1;
    }
    assert(v@.subrange(0, v.len() as int) =~= v@);
    out
}

/// Filtering one more point: it is kept exactly if the test holds of it.
proof fn lemma_pruned_push(s: Seq<PriceHistoryPoint>, p: PriceHistoryPoint, cutoff: i64)
    ensures
        pruned(s.push(p), cutoff) == if p.bucket >= cutoff {
            pruned(s, cutoff).push(p)
        } else {
            pruned(s, cutoff)
        },
{
    reveal(Seq::filter);
    assert(s.push(p).drop_last() =~= s);
}

/// The points of `series` that are not older than `cutoff`, in their order.
pub fn keep_recent(series: &Vec<PriceHistoryPoint>, cutoff: i64) -> (r: Vec<PriceHistoryPoint>)
    requires
        strictly_rising(series@),
    ensures
        r@ == pruned(series@, cutoff),
        strictly_rising(r@),
{
    let mut out: Vec<PriceHistoryPoint> = Vec::new();
    let n = series.len();
    let mut i: usize = 0;
    proof {
        reveal(Seq::filter);
        assert(series@.subrange(0, 0) =~= Seq::<PriceHistoryPoint>::empty());
    }
    while i < n
        invariant
            n == series@.len(),
            0 <= i <= n,
            strictly_rising(series@),
            out@ == pruned(series@.subrange(0, i as int), cutoff),
            strictly_rising(out@),
            forall|k: int|
                0 <= k < out@.len() && i < n ==> out@[k].bucket < series@[i as int].bucket,
        decreases n - i,
    {
        let p = series[i];
        proof {
            lemma_pruned_push(series@.subrange(0, i as int), p, cutoff);
            assert(series@.subrange(0, i + 1) =~= series@.subrange(0, i as int).push(p));
        }
        if p.bucket >= cutoff {
            out.push(p);
        }
        i += 1;
    }
    assert(series@.subrange(0, n as int) =~= series@);
    out
}

} // verus!
