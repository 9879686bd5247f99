//! Price synthesis: the next price of an asset from the pressure of demand
//! on supply, and the cycle that writes it to the price cache.

use crate::fixed::scaled_millis;
use crate::fixed::Amount;
use crate::price_cache::appended;
use crate::price_cache::cached_price;
use crate::price_cache::pruned;
use crate::price_cache::retention_cutoff;
use crate::price_cache::PriceCache;
use crate::price_cache::PriceCacheView;
use crate::price_cache::PriceHistoryPoint;
use crate::price_cache::PriceRecord;
use crate::price_cache::RETENTION_SECONDS;
use vstd::prelude::*;

verus! {

/// One, in millionths.
pub const PPM: u32 = 1000000;

/// The price that an asset starts from when neither the cache nor a
/// snapshot knows one, in thousandths.
pub const DEFAULT_PRICE: u64 = 1000;

/// What the market says about one asset at the start of a cycle.
#[derive(Clone, Copy, Debug, PartialEq, Eq, Structural)]
pub struct MarketSignals {
    /// Sum of the amounts of the pending buy orders.
    pub pending_buy: Amount,
    /// Sum of the amounts of the pending sell orders.
    pub pending_sell: Amount,
    /// Sum of what all users hold.
    pub held: Amount,
    /// Volume bought within the last day.
    pub recent_buy: Amount,
    /// Volume sold within the last day.
    pub recent_sell: Amount,
}

/// The constants that tune synthesis.
#[derive(Clone, Copy, Debug, PartialEq, Eq, Structural)]
pub struct SynthesisParams {
    /// How much of the pressure ratio becomes price change, in millionths.
    pub sensitivity_ppm: u32,
    /// Largest change per cycle from pressure, in millionths of the price.
    pub max_change_ppm: u32,
    /// Largest jitter per cycle, in millionths of the price.
    pub jitter_ppm: u32,
    /// The volume at which the swing is damped to one half.
    pub liquidity: Amount,
    /// The share of the change that is applied, in thousandths.
    pub smoothing_permille: u32,
    /// The price below which synthesis never goes.
    pub min_price: Amount,
}

/// Why a cycle failed for one asset. The cache is then left as it was.
#[derive(Clone, Copy, Debug, PartialEq, Eq, Structural)]
pub enum SynthesisError {
    /// The next price is too large to be held.
    Overflow,
    /// The clock is too close to the least moment that can be held.
    ClockOutOfRange,
}

impl SynthesisParams {
    /// The floor is strictly positive, the shares are at most one, the
    /// liquidity is positive, and change and jitter together never take
    /// more than the whole price away.
    pub open spec fn valid(self) -> bool {
        &&& self.min_price.millis >= 1
        &&& self.liquidity.millis >= 1
        &&& self.smoothing_permille <= 1000
        &&& self.sensitivity_ppm <= PPM
        &&& self.max_change_ppm + self.jitter_ppm <= PPM
    }

    /// Whether the constants are usable.
    pub fn is_valid(&self) -> (r: bool)
        ensures
            r == self.valid(),
    {
        self.min_price.millis >= 1 && self.liquidity.millis >= 1 && self.smoothing_permille
            <= 1000 && self.sensitivity_ppm <= PPM && self.max_change_ppm <= PPM
            && self.jitter_ppm <= PPM - self.max_change_ppm
    }

    /// The standard constants: sensitivity 1%, at most 5% change per cycle,
    /// at most 1% jitter, no smoothing, and a floor of 0.001.
    pub fn standard() -> (r: SynthesisParams)
        ensures
            r.valid(),
            r == (SynthesisParams {
                sensitivity_ppm: 10000,
                max_change_ppm: 50000,
                jitter_ppm: 10000,
                liquidity: Amount { millis: 1000000000 },
                smoothing_permille: 1000,
                min_price: Amount { millis: 1 },
            }),
    {
        SynthesisParams {
            sensitivity_ppm: 10000,
            max_change_ppm: 50000,
            jitter_ppm: 10000,
            liquidity: Amount { millis: 1000000000 },
            smoothing_permille: 1000,
            min_price: Amount { millis: 1 },
        }
    }
}

/// The price that synthesis starts from: the cached one, else the one of
/// the latest snapshot, else the default.
pub open spec fn old_price(cached: Option<Amount>, snapshot: Option<Amount>) -> Amount {
    match cached {
        Some(p) => p,
        None => match snapshot {
            Some(p) => p,
            None => Amount { millis: DEFAULT_PRICE },
        },
    }
}

/// Demand: what buyers ask for and what they lately bought, in thousandths.
pub open spec fn demand(s: MarketSignals) -> int {
    s.pending_buy.millis + s.recent_buy.millis
}

/// Supply: what sellers offer, what is held, and what was lately sold.
pub open spec fn supply(s: MarketSignals) -> int {
    s.pending_sell.millis + s.held.millis + s.recent_sell.millis
}

/// The pressure ratio: the imbalance of demand and supply as a share of
/// their total, in millionths, without its sign.
pub open spec fn pressure_ppm(s: MarketSignals) -> int {
    let d = demand(s);
    let u = supply(s);
    let imbalance = if d >= u {
        d - u
    } else {
        u - d
    };
    imbalance * 1000000 / (d + u + 1)
}

/// The pressure ratio scaled by the sensitivity, in millionths.
pub open spec fn sensed_ppm(s: MarketSignals, p: SynthesisParams) -> int {
    pressure_ppm(s) * p.sensitivity_ppm / 1000000
}

/// The sensed pressure damped by the volume: the larger the volume against
/// the liquidity, the smaller the swing.
pub open spec fn damped_ppm(s: MarketSignals, p: SynthesisParams) -> int {
    sensed_ppm(s, p) * p.liquidity.millis / (p.liquidity.millis + demand(s) + supply(s))
}

/// The change that the pressure asks for, in millionths of the price and
/// without its sign: the damped pressure, capped, and smoothed.
pub open spec fn change_ppm(s: MarketSignals, p: SynthesisParams) -> int {
    let capped = if damped_ppm(s, p) > p.max_change_ppm {
        p.max_change_ppm as int
    } else {
        damped_ppm(s, p)
    };
    capped * p.smoothing_permille / 1000
}

/// The jitter that the random draw `noise` stands for, in millionths of
/// the price, with its sign: the lowest bit gives the direction.
pub open spec fn jitter_of(noise: u32, p: SynthesisParams) -> int {
    let size = (noise as int / 2) % (p.jitter_ppm + 1);
    if noise as int % 2 == 1 {
        size
    } else {
        -size
    }
}

/// The factor by which the price changes, in millionths: one, plus the
/// change in the direction of the pressure, plus the jitter.
pub open spec fn factor_ppm(s: MarketSignals, p: SynthesisParams, noise: u32) -> int {
    let change = if demand(s) >= supply(s) {
        change_ppm(s, p)
    } else {
        -change_ppm(s, p)
    };
    1000000 + change + jitter_of(noise, p)
}

/// The next price: the old price times the factor, rounded to three
/// digits, and not below the floor. `None` where it is too large to hold.
pub open spec fn next_price_of(old: Amount, s: MarketSignals, p: SynthesisParams, noise: u32)
    -> Option<Amount> {
    let scaled = scaled_millis(old.millis as int, factor_ppm(s, p, noise));
    if scaled > u64::MAX {
        None
    } else if scaled < p.min_price.millis {
        Some(p.min_price)
    } else {
        Some(Amount { millis: scaled as u64 })
    }
}

/// The pressure ratio is a share of one, and so is the change, which also
/// keeps to its cap.
pub proof fn lemma_change_bounded(s: MarketSignals, p: SynthesisParams)
    requires
        p.valid(),
    ensures
        0 <= pressure_ppm(s) <= 1000000,
        0 <= change_ppm(s, p) <= p.max_change_ppm,
{
    let d = demand(s);
    let u = supply(s);
    let imbalance = if d >= u {
        d - u
    } else {
        u - d
    };
    let total = d + u + 1;
    assert(0 <= imbalance * 1000000 / total <= 1000000) by (nonlinear_arith)
        requires
            0 <= imbalance < total,
    ;
    let ratio = pressure_ppm(s);
    let sens = p.sensitivity_ppm as int;
    assert(0 <= ratio * sens / 1000000 <= 1000000) by (nonlinear_arith)
        requires
            0 <= ratio <= 1000000,
            0 <= sens <= 1000000,
    ;
    let sensed = ratio * sens / 1000000;
    let liq = p.liquidity.millis as int;
    let vol = liq + d + u;
    assert(0 <= sensed * liq / vol <= sensed) by (nonlinear_arith)
        requires
            0 <= sensed,
            1 <= liq <= vol,
    ;
    let damped = sensed * liq / vol;
    let capped = if damped > p.max_change_ppm {
        p.max_change_ppm as int
    } else {
        damped
    };
    let smooth = p.smoothing_permille as int;
    assert(0 <= capped * smooth / 1000 <= capped) by (nonlinear_arith)
        requires
            0 <= capped,
            0 <= smooth <= 1000,
    ;
}

/// The factor lies between nothing and twice the price.
pub proof fn lemma_factor_bounded(s: MarketSignals, p: SynthesisParams, noise: u32)
    requires
        p.valid(),
    ensures
        0 <= factor_ppm(s, p, noise) <= 2000000,
{
    lemma_change_bounded(s, p);
}

/// Synthesis never emits a price below the floor, whatever the pressure
/// and whatever the random draw.
pub proof fn lemma_price_floor(old: Amount, s: MarketSignals, p: SynthesisParams, noise: u32)
    requires
        p.valid(),
    ensures
        next_price_of(old, s, p, noise) matches Some(price) ==> price.millis
            >= p.min_price.millis && price.millis >= 1,
{
}

/// The price that synthesis starts from.
pub fn resolve_old_price(cached: Option<Amount>, snapshot: Option<Amount>) -> (r: Amount)
    ensures
        r == old_price(cached, snapshot),
{
    match cached {
        Some(p) => p,
        None => match snapshot {
            Some(p) => p,
            None => Amount::from_millis(DEFAULT_PRICE),
        },
    }
}

/// The change that the pressure asks for, without its sign, in millionths.
pub fn pressure_change(signals: &MarketSignals, params: &SynthesisParams) -> (r: u32)
    requires
        params.valid(),
    ensures
        r == change_ppm(*signals, *params),
        r <= params.max_change_ppm,
{
    proof {
        lemma_change_bounded(*signals, *params);
    }
    let d: u128 = signals.pending_buy.millis as u128 + signals.recent_buy.millis as u128;
    let u: u128 = signals.pending_sell.millis as u128 + signals.held.millis as u128
        + signals.recent_sell.millis as u128;
    let imbalance: u128 = if d >= u {
        d - u
    } else {
        u - d
    };
    let ratio: u128 = imbalance * 1000000 / (d + u + 1);
    let sens: u128 = params.sensitivity_ppm as u128;
    assert(ratio * sens <= 1000000 * 1000000) by (nonlinear_arith)
        requires
            0 <= ratio <= 1000000,
            0 <= sens <= 1000000,
    ;
    let sensed: u128 = ratio * sens / 1000000;
    let liq: u128 = params.liquidity.millis as u128;
    assert(sensed * liq <= 1000000 * 0xffff_ffff_ffff_ffff) by (nonlinear_arith)
        requires
            0 <= sensed <= 1000000,
            0 <= liq <= 0xffff_ffff_ffff_ffff,
    ;
    let damped: u128 = sensed * liq / (liq + d + u);
    let capped: u128 = if damped > params.max_change_ppm as u128 {
        params.max_change_ppm as u128
    } else {
        damped
    };
    let smooth: u128 = params.smoothing_permille as u128;
    assert(capped * smooth <= 1000000 * 1000) by (nonlinear_arith)
        requires
            0 <= capped <= 1000000,
            0 <= smooth <= 1000,
    ;
    let smoothed: u128 = capped * smooth / 1000;
    smoothed as u32
}

/// The next price of an asset from its old price, the market's signals and
/// one random draw.
pub fn next_price(old: Amount, signals: &MarketSignals, params: &SynthesisParams, noise: u32) -> (r:
    Option<Amount>)
    requires
        params.valid(),
    ensures
        r == next_price_of(old, *signals, *params, noise),
        r matches Some(price) ==> price.millis >= params.min_price.millis,
{
    proof {
        lemma_factor_bounded(*signals, *params, noise);
        lemma_change_bounded(*signals, *params);
    }
    let change = pressure_change(signals, params);
    let d: u128 = signals.pending_buy.millis as u128 + signals.recent_buy.millis as u128;
    let u: u128 = signals.pending_sell.millis as u128 + signals.held.millis as u128
        + signals.recent_sell.millis as u128;
    let size: u32 = (noise / 2) % (params.jitter_ppm + 1);
    let base: u32 = if d >= u {
        PPM + change
    } else {
        PPM - change
    };
    let factor: u32 = if noise % 2 == 1 {
        base + size
    } else {
        base - size
    };
    match old.checked_times_ppm(factor) {
        None => None,
        Some(scaled) => if scaled.millis < params.min_price.millis {
            Some(params.min_price)
        } else {
            Some(scaled)
        },
    }
}

/// What one cycle returns for an asset: the next price, or why there is none.
pub open spec fn cycle_outcome(
    pre: PriceCacheView,
    asset: i32,
    snapshot: Option<Amount>,
    s: MarketSignals,
    p: SynthesisParams,
    noise: u32,
    now: i64,
) -> Result<Amount, SynthesisError> {
    if now < i64::MIN + RETENTION_SECONDS {
        Err(SynthesisError::ClockOutOfRange)
    } else {
        match next_price_of(old_price(cached_price(pre, asset), snapshot), s, p, noise) {
            Some(price) => Ok(price),
            None => Err(SynthesisError::Overflow),
        }
    }
}

/// Whether `post` is what one cycle with the given outcome makes of `pre`:
/// a failed cycle changes nothing; a successful one overwrites the current
/// price of the asset, offers the price to its history and prunes that
/// history to the retention window. Other assets keep what they have.
pub open spec fn cycle_applied(
    pre: PriceCacheView,
    post: PriceCacheView,
    outcome: Result<Amount, SynthesisError>,
    asset: i32,
    now: i64,
) -> bool {
    match outcome {
        Err(_) => post == pre,
        Ok(price) => {
            &&& post.current == pre.current.insert(
                asset,
                PriceRecord { asset_id: asset, price: price, updated_at: now },
            )
            &&& post.series(asset) == pruned(
                appended(pre.series(asset), price, now),
                (now - RETENTION_SECONDS) as i64,
            )
            &&& forall|a: i32| a != asset ==> post.series(a) == pre.series(a)
        },
    }
}

/// Runs one cycle for `asset_id` with the random draw `noise` at the moment
/// `now`: resolves the old price, computes the next one, and writes it to
/// the cache.
pub fn apply_cycle(
    cache: &mut PriceCache,
    asset_id: i32,
    snapshot: Option<Amount>,
    signals: &MarketSignals,
    params: &SynthesisParams,
    noise: u32,
    now: i64,
) -> (r: Result<Amount, SynthesisError>)
    requires
        old(cache).wf(),
        params.valid(),
    ensures
        final(cache).wf(),
        r == cycle_outcome(old(cache)@, asset_id, snapshot, *signals, *params, noise, now),
        cycle_applied(old(cache)@, final(cache)@, r, asset_id, now),
        r matches Ok(price) ==> price.millis >= params.min_price.millis,
{
    if now < i64::MIN + RETENTION_SECONDS {
        return Err(SynthesisError::ClockOutOfRange);
    }
    let old = resolve_old_price(cache.price_of(asset_id), snapshot);
    let price = match next_price(old, signals, params, noise) {
        Some(p) => p,
        None => { return Err(SynthesisError::Overflow); },
    };
    cache.set_current(asset_id, price, now);
    cache.append_history(asset_id, price, now);
    cache.prune_history(asset_id, retention_cutoff(now));
    Ok(price)
}

/// Draws a random number with `rand::random`. Nothing is claimed of it.
#[verifier::external_body]
fn draw_noise() -> (r: u32) {
    rand::random::<u32>()
}

/// Reads the clock with `chrono::Utc::now` and returns its
/// `DateTime::timestamp`, the seconds since the epoch. Nothing is claimed
/// of the moment.
#[verifier::external_body]
fn unix_now() -> (r: i64) {
    chrono::Utc::now().timestamp()
}

/// Whether a price is small enough that no cycle can take it beyond what
/// a quantity can hold: twice the price still fits.
pub open spec fn doubling_fits(price: Amount) -> bool {
    price.millis <= u64::MAX / 2
}

/// A price whose double fits always has a next price, whatever the
/// pressure and the random draw.
pub proof fn lemma_next_price_exists(old: Amount, s: MarketSignals, p: SynthesisParams, noise: u32)
    requires
        p.valid(),
        doubling_fits(old),
    ensures
        next_price_of(old, s, p, noise) is Some,
{
    lemma_factor_bounded(s, p, noise);
    let a = old.millis as int;
    let f = factor_ppm(s, p, noise);
    assert(a * f <= a * 2000000) by (nonlinear_arith)
        requires
            0 <= a,
            0 <= f <= 2000000,
    ;
}

/// The history of an asset after a cycle that emitted `price` at `now`:
/// the price was offered to it, and it was pruned to the retention window.
pub open spec fn cycled(series: Seq<PriceHistoryPoint>, price: Amount, now: i64) -> Seq<
    PriceHistoryPoint,
> {
    pruned(appended(series, price, now), (now - RETENTION_SECONDS) as i64)
}

/// Whether `post` is what a cycle that emitted `price` at some moment that
/// a clock can give makes of the history `pre`.
pub open spec fn history_cycled(
    pre: Seq<PriceHistoryPoint>,
    post: Seq<PriceHistoryPoint>,
    price: Amount,
) -> bool {
    exists|now: i64| now >= 0 && post == #[trigger] cycled(pre, price, now)
}

/// Runs one cycle for `asset_id` now, with a fresh random draw. A reading
/// of the clock before the epoch counts as the epoch. Whatever the draw
/// and the clock, the cache is what `apply_cycle` makes of it for some draw
/// and some moment that is not before the epoch; a price that comes out is
/// not below the floor; and the cycle succeeds wherever twice the old
/// price still fits.
pub fn calculate_asset_price(
    cache: &mut PriceCache,
    asset_id: i32,
    snapshot: Option<Amount>,
    signals: &MarketSignals,
    params: &SynthesisParams,
) -> (r: Result<Amount, SynthesisError>)
    requires
        old(cache).wf(),
        params.valid(),
    ensures
        final(cache).wf(),
        exists|noise: u32, now: i64|
            now >= 0 && r == #[trigger] cycle_outcome(
                old(cache)@,
                asset_id,
                snapshot,
                *signals,
                *params,
                noise,
                now,
            ) && cycle_applied(old(cache)@, final(cache)@, r, asset_id, now),
        r matches Ok(price) ==> price.millis >= params.min_price.millis,
        doubling_fits(old_price(cached_price(old(cache)@, asset_id), snapshot)) ==> r is Ok,
{
    let noise = draw_noise();
    let reading = unix_now();
    let now: i64 = if reading < 0 {
        0
    } else {
        reading
    };
    proof {
        let old = old_price(cached_price(cache@, asset_id), snapshot);
        if doubling_fits(old) {
            lemma_next_price_exists(old, *signals, *params, noise);
        }
    }
    apply_cycle(cache, asset_id, snapshot, signals, params, noise, now)
}

/// What synthesis needs to know of one asset at the start of a cycle.
#[derive(Clone, Copy, Debug, PartialEq, Eq, Structural)]
pub struct AssetInput {
    pub asset_id: i32,
    /// The price of the asset's latest snapshot, if it has one.
    pub snapshot: Option<Amount>,
    pub signals: MarketSignals,
}

/// No asset occurs twice among `inputs`.
pub open spec fn distinct_assets(inputs: Seq<AssetInput>) -> bool {
    forall|i: int, j: int|
        0 <= i < j < inputs.len() ==> inputs[i].asset_id != inputs[j].asset_id
}

/// `asset` is not among the first `n` of `inputs`.
pub open spec fn untouched(inputs: Seq<AssetInput>, n: int, asset: i32) -> bool {
    forall|k: int| 0 <= k < n ==> (#[trigger] inputs[k]).asset_id != asset
}

/// The price and the history of `asset` are the same in both caches.
pub open spec fn same_asset(a: PriceCacheView, b: PriceCacheView, asset: i32) -> bool {
    a.price(asset) == b.price(asset) && a.series(asset) == b.series(asset)
}

/// What is owed of the input at place `i` once all cycles have run and no
/// asset occurs twice: a price that came out is the asset's current price
/// and its history took the point and was pruned; a failed asset keeps what
/// it had; and an asset succeeds wherever twice its old price still fits.
pub open spec fn cycle_done(
    pre: PriceCacheView,
    post: PriceCacheView,
    input: AssetInput,
    outcome: Result<Amount, SynthesisError>,
) -> bool {
    &&& match outcome {
        Ok(price) => cached_price(post, input.asset_id) == Some(price) && history_cycled(
            pre.series(input.asset_id),
            post.series(input.asset_id),
            price,
        ),
        Err(_) => same_asset(post, pre, input.asset_id),
    }
    &&& doubling_fits(old_price(cached_price(pre, input.asset_id), input.snapshot))
        ==> outcome is Ok
}

/// Runs one cycle for every asset of `inputs`, in their order. An asset
/// that fails is reported at its place, keeps what it had, and does not
/// stop the others; an asset that is not among the inputs keeps what it
/// had; the price that comes out for an asset is its current price
/// afterwards, never below the floor, and its history took the point and
/// was pruned; and an asset succeeds wherever twice its old price fits.
pub fn update_all_asset_prices(
    cache: &mut PriceCache,
    inputs: &Vec<AssetInput>,
    params: &SynthesisParams,
) -> (r: Vec<Result<Amount, SynthesisError>>)
    requires
        old(cache).wf(),
        params.valid(),
    ensures
        final(cache).wf(),
        r@.len() == inputs@.len(),
        forall|i: int|
            0 <= i < r@.len() ==> (#[trigger] r@[i] matches Ok(price) ==> price.millis
                >= params.min_price.millis),
        forall|a: i32|
            untouched(inputs@, inputs@.len() as int, a) ==> #[trigger] same_asset(
                final(cache)@,
                old(cache)@,
                a,
            ),
        distinct_assets(inputs@) ==> forall|i: int|
            0 <= i < r@.len() ==> cycle_done(
                old(cache)@,
                final(cache)@,
                inputs@[i],
                #[trigger] r@[i],
            ),
{
    let mut out: Vec<Result<Amount, SynthesisError>> = Vec::new();
    let mut i: usize = 0;
    while i < inputs.len()
        invariant
            cache.wf(),
            params.valid(),
            0 <= i <= inputs@.len(),
            out@.len() == i,
            forall|k: int|
                0 <= k < out@.len() ==> (#[trigger] out@[k] matches Ok(price) ==> price.millis
                    >= params.min_price.millis),
            forall|a: i32|
                untouched(inputs@, i as int, a) ==> #[trigger] same_asset(cache@, old(cache)@, a),
            distinct_assets(inputs@) ==> forall|k: int|
                0 <= k < out@.len() ==> cycle_done(
                    old(cache)@,
                    cache@,
                    inputs@[k],
                    #[trigger] out@[k],
                ),
        decreases inputs@.len() - i,
    {
        let input = inputs[i];
        let ghost before = cache@;
        let ghost done = out@;
        let outcome = calculate_asset_price(
            cache,
            input.asset_id,
            input.snapshot,
            &input.signals,
            params,
        );
        proof {
            let (noise, now) = choose|noise: u32, now: i64|
                now >= 0 && outcome == #[trigger] cycle_outcome(
                    before,
                    input.asset_id,
                    input.snapshot,
                    input.signals,
                    *params,
                    noise,
                    now,
                ) && cycle_applied(before, cache@, outcome, input.asset_id, now);
            assert(cycle_applied(before, cache@, outcome, input.asset_id, now));
            assert forall|a: i32| a != input.asset_id implies same_asset(cache@, before, a) by {}
            assert forall|a: i32| untouched(inputs@, i + 1, a) implies #[trigger] same_asset(
                cache@,
                old(cache)@,
                a,
            ) by {
                assert(inputs@[i as int].asset_id != a);
                assert(untouched(inputs@, i as int, a));
                assert(same_asset(before, old(cache)@, a));
                assert(same_asset(cache@, before, a));
            }
            if distinct_assets(inputs@) {
                assert(untouched(inputs@, i as int, input.asset_id));
                assert(same_asset(before, old(cache)@, input.asset_id));
                match outcome {
                    Ok(price) => {
                        assert(cache@.series(input.asset_id) == cycled(
                            old(cache)@.series(input.asset_id),
                            price,
                            now,
                        ));
                    },
                    Err(_) => {},
                }
                assert(cycle_done(old(cache)@, cache@, input, outcome));
                assert forall|k: int| 0 <= k < i implies cycle_done(
                    old(cache)@,
                    cache@,
                    inputs@[k],
                    #[trigger] done[k],
                ) by {
                    assert(inputs@[k].asset_id != input.asset_id);
                    assert(same_asset(cache@, before, inputs@[k].asset_id));
                    assert(cycle_done(old(cache)@, before, inputs@[k], done[k]));
                }
            }
        }
        out.push(outcome);
        i += 1;
    }
    out
}

} // verus!
