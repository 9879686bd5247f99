use trade_game::fixed::Amount;
use trade_game::price_cache::bucket_of;
use trade_game::price_cache::keep_recent;
use trade_game::price_cache::retention_cutoff;
use trade_game::price_cache::PriceCache;
use trade_game::price_cache::PriceHistoryPoint;
use trade_game::price_cache::PriceRecord;
use trade_game::snapshot::latest_snapshot_price;
use trade_game::snapshot::save_prices_executor;
use trade_game::snapshot::PriceSnapshot;
use trade_game::synthesis::apply_cycle;
use trade_game::synthesis::calculate_asset_price;
use trade_game::synthesis::next_price;
use trade_game::synthesis::pressure_change;
use trade_game::synthesis::resolve_old_price;
use trade_game::synthesis::update_all_asset_prices;
use trade_game::synthesis::AssetInput;
use trade_game::synthesis::MarketSignals;
use trade_game::synthesis::SynthesisError;
use trade_game::synthesis::SynthesisParams;
use trade_game::snapshot::snapshot_of_reads;
use trade_game::snapshot::PriceRead;
use trade_game::snapshot::ReadFailure;

fn amt(millis: u64) -> Amount {
    Amount::from_millis(millis)
}

fn signals(pending_buy: u64, pending_sell: u64, held: u64, recent_buy: u64, recent_sell: u64) -> MarketSignals {
    MarketSignals {
        pending_buy: amt(pending_buy),
        pending_sell: amt(pending_sell),
        held: amt(held),
        recent_buy: amt(recent_buy),
        recent_sell: amt(recent_sell),
    }
}

fn point(bucket: i64, price: u64, emitted_at: i64) -> PriceHistoryPoint {
    PriceHistoryPoint { bucket, price: amt(price), emitted_at }
}

#[test]
fn buckets_are_whole_minutes() {
    assert_eq!(bucket_of(0), 0);
    assert_eq!(bucket_of(59), 0);
    assert_eq!(bucket_of(60), 60);
    assert_eq!(bucket_of(1_700_000_123), 1_700_000_100);
    assert_eq!(bucket_of(-1), -60);
    assert_eq!(bucket_of(-60), -60);
    assert_eq!(bucket_of(-61), -120);
    assert_eq!(retention_cutoff(100_000), 13_600);
}

#[test]
fn cold_cache_has_no_price() {
    let cache = PriceCache::new();
    assert_eq!(cache.get_current(3), None);
    assert_eq!(cache.price_of(3), None);
    assert!(cache.history(3).is_empty());
}

#[test]
fn set_current_overwrites() {
    let mut cache = PriceCache::new();
    cache.set_current(3, amt(1_500), 10);
    cache.set_current(4, amt(9_000), 11);
    cache.set_current(3, amt(1_600), 12);
    assert_eq!(cache.get_current(3), Some(PriceRecord { asset_id: 3, price: amt(1_600), updated_at: 12 }));
    assert_eq!(cache.get_current(4), Some(PriceRecord { asset_id: 4, price: amt(9_000), updated_at: 11 }));
    assert_eq!(cache.price_of(3), Some(amt(1_600)));
    assert!(cache.history(3).is_empty());
}

#[test]
fn one_point_per_minute() {
    let mut cache = PriceCache::new();
    assert!(cache.append_history(3, amt(1_500), 125));
    assert!(!cache.append_history(3, amt(1_600), 170));
    assert!(!cache.append_history(3, amt(1_700), 120));
    assert_eq!(cache.history(3), vec![point(120, 1_500, 125)]);
    assert!(cache.append_history(3, amt(1_800), 180));
    assert_eq!(cache.history(3), vec![point(120, 1_500, 125), point(180, 1_800, 180)]);
    // a point of an older minute is not written behind a newer one
    assert!(!cache.append_history(3, amt(1_900), 65));
    assert_eq!(cache.history(3).len(), 2);
    // other assets have their own history
    assert!(cache.append_history(4, amt(5), 125));
    assert_eq!(cache.history(4), vec![point(120, 5, 125)]);
    assert_eq!(cache.history(3).len(), 2);
}

#[test]
fn pruning_drops_what_is_older_than_the_cutoff() {
    let mut cache = PriceCache::new();
    cache.append_history(3, amt(1), 60);
    cache.append_history(3, amt(2), 120);
    cache.append_history(3, amt(3), 180);
    cache.append_history(4, amt(9), 60);
    cache.set_current(3, amt(3), 180);
    cache.prune_history(3, 120);
    assert_eq!(cache.history(3), vec![point(120, 2, 120), point(180, 3, 180)]);
    assert_eq!(cache.history(4), vec![point(60, 9, 60)]);
    assert_eq!(cache.price_of(3), Some(amt(3)));
    cache.prune_history(3, 121);
    assert_eq!(cache.history(3), vec![point(180, 3, 180)]);
    cache.prune_history(3, i64::MAX);
    assert!(cache.history(3).is_empty());
    cache.prune_history(7, 0);
    assert!(cache.history(7).is_empty());
    // a pruned history takes new points again
    assert!(cache.append_history(3, amt(4), 240));
    assert_eq!(cache.history(3), vec![point(240, 4, 240)]);
}

#[test]
fn keep_recent_filters_in_order() {
    let series = vec![point(60, 1, 61), point(120, 2, 121), point(180, 3, 181)];
    assert_eq!(keep_recent(&series, 0), series);
    assert_eq!(keep_recent(&series, 61), vec![point(120, 2, 121), point(180, 3, 181)]);
    assert_eq!(keep_recent(&series, 181), vec![]);
}

#[test]
fn old_price_falls_back_to_snapshot_then_default() {
    assert_eq!(resolve_old_price(None, None), amt(1_000));
    assert_eq!(resolve_old_price(None, Some(amt(2_500))), amt(2_500));
    assert_eq!(resolve_old_price(Some(amt(3_000)), Some(amt(2_500))), amt(3_000));
    assert_eq!(resolve_old_price(Some(amt(3_000)), None), amt(3_000));
}

#[test]
fn cold_start_seeds_the_default_price() {
    let mut cache = PriceCache::new();
    let params = SynthesisParams::standard();
    // nothing pulls either way and the draw carries no jitter
    let price = apply_cycle(&mut cache, 3, None, &signals(0, 0, 0, 0, 0), &params, 0, 1_700_000_000);
    assert_eq!(price, Ok(amt(1_000)));
    assert_eq!(cache.price_of(3), Some(amt(1_000)));
}

#[test]
fn standard_constants_are_valid() {
    let p = SynthesisParams::standard();
    assert!(p.is_valid());
    assert_eq!(p.min_price, amt(1));
    assert_eq!(p.max_change_ppm, 50_000);
    let mut bad = p;
    bad.min_price = amt(0);
    assert!(!bad.is_valid());
    let mut bad = p;
    bad.jitter_ppm = 950_001;
    assert!(!bad.is_valid());
    let mut bad = p;
    bad.liquidity = amt(0);
    assert!(!bad.is_valid());
    let mut bad = p;
    bad.smoothing_permille = 1_001;
    assert!(!bad.is_valid());
}

#[test]
fn pressure_becomes_a_bounded_change() {
    let p = SynthesisParams::standard();
    // ratio 999999 ppm, sensed 9999, damped by 1000000/(1000000+3000) to 9969
    assert_eq!(pressure_change(&signals(3_000_000, 0, 0, 0, 0), &p), 9_969);
    assert_eq!(pressure_change(&signals(0, 1_000_000, 1_000_000, 0, 1_000_000), &p), 9_969);
    assert_eq!(pressure_change(&signals(0, 0, 0, 0, 0), &p), 0);
    assert_eq!(pressure_change(&signals(5_000, 5_000, 0, 0, 0), &p), 0);
    // demand 3, supply 1: ratio 2000000/4001 = 499875 ppm; sensed 4998; damped 4997
    assert_eq!(pressure_change(&signals(2_000, 500, 250, 1_000, 250), &p), 4_997);
    // a large volume damps the swing to nothing
    let all = u64::MAX;
    assert_eq!(pressure_change(&signals(all, 0, 0, all, 0), &p), 0);
    // the cap holds at full sensitivity
    let mut wild = p;
    wild.sensitivity_ppm = 1_000_000;
    assert_eq!(pressure_change(&signals(3_000_000, 0, 0, 0, 0), &wild), 50_000);
    // smoothing applies a share of the change
    let mut smooth = p;
    smooth.smoothing_permille = 500;
    assert_eq!(pressure_change(&signals(3_000_000, 0, 0, 0, 0), &smooth), 4_984);
}

#[test]
fn next_price_follows_pressure_and_jitter() {
    let p = SynthesisParams::standard();
    let buy = signals(3_000_000, 0, 0, 0, 0);
    let sell = signals(0, 3_000_000, 0, 0, 0);
    // factor 1.009969
    assert_eq!(next_price(amt(100_000), &buy, &p, 0), Some(amt(100_997)));
    // factor 0.990031
    assert_eq!(next_price(amt(100_000), &sell, &p, 0), Some(amt(99_003)));
    // draw 20001: upward jitter of 10000 ppm on top: factor 1.019969
    assert_eq!(next_price(amt(100_000), &buy, &p, 20_001), Some(amt(101_997)));
    // draw 20000: downward jitter of 10000 ppm: factor 0.999969
    assert_eq!(next_price(amt(100_000), &buy, &p, 20_000), Some(amt(99_997)));
    // draw 20002 wraps to no jitter: 10001 % 10001 = 0
    assert_eq!(next_price(amt(100_000), &buy, &p, 20_002), Some(amt(100_997)));
    assert_eq!(next_price(amt(u64::MAX), &buy, &p, 0), None);
}

#[test]
fn price_never_falls_below_the_floor() {
    let p = SynthesisParams::standard();
    let crash = signals(0, u64::MAX, u64::MAX, 0, u64::MAX);
    let sell = signals(0, 3_000_000, 0, 0, 0);
    for noise in [0u32, 1, 2, 20_000, 20_001, u32::MAX, u32::MAX - 1] {
        for old in [0u64, 1, 2, 10, 1_000] {
            for s in [&crash, &sell] {
                let price = next_price(amt(old), s, &p, noise).unwrap();
                assert!(price.millis >= 1);
            }
        }
    }
    assert_eq!(next_price(amt(0), &sell, &p, 0), Some(amt(1)));
    let mut high_floor = p;
    high_floor.min_price = amt(500);
    assert_eq!(next_price(amt(100), &sell, &high_floor, 0), Some(amt(500)));
    // the whole price can be taken away and the floor still holds
    let mut harsh = p;
    harsh.sensitivity_ppm = 1_000_000;
    harsh.max_change_ppm = 1_000_000;
    harsh.jitter_ppm = 0;
    harsh.liquidity = amt(u64::MAX);
    assert_eq!(next_price(amt(100_000), &sell, &harsh, 0), Some(amt(1)));
}

#[test]
fn a_cycle_writes_price_history_and_prunes() {
    let mut cache = PriceCache::new();
    let p = SynthesisParams::standard();
    let buy = signals(3_000_000, 0, 0, 0, 0);
    cache.append_history(3, amt(90_000), 1_000);
    cache.set_current(3, amt(100_000), 1_000);
    let now = 1_000 + 86_400 + 61;
    let price = apply_cycle(&mut cache, 3, Some(amt(5)), &buy, &p, 0, now);
    assert_eq!(price, Ok(amt(100_997)));
    assert_eq!(cache.get_current(3), Some(PriceRecord { asset_id: 3, price: amt(100_997), updated_at: now }));
    assert_eq!(cache.history(3), vec![point(87_420, 100_997, now)]);
    // within the same minute the price moves but the history does not
    let price = apply_cycle(&mut cache, 3, None, &buy, &p, 0, now + 10);
    assert_eq!(price, Ok(amt(102_004)));
    assert_eq!(cache.price_of(3), Some(amt(102_004)));
    assert_eq!(cache.history(3), vec![point(87_420, 100_997, now)]);
}

#[test]
fn a_failed_cycle_leaves_the_cache_alone() {
    let mut cache = PriceCache::new();
    let p = SynthesisParams::standard();
    let buy = signals(3_000_000, 0, 0, 0, 0);
    cache.set_current(3, amt(u64::MAX), 5);
    cache.append_history(3, amt(7), 5);
    assert_eq!(apply_cycle(&mut cache, 3, None, &buy, &p, 0, 1_000), Err(SynthesisError::Overflow));
    assert_eq!(apply_cycle(&mut cache, 3, None, &buy, &p, 0, i64::MIN + 5), Err(SynthesisError::ClockOutOfRange));
    assert_eq!(cache.get_current(3), Some(PriceRecord { asset_id: 3, price: amt(u64::MAX), updated_at: 5 }));
    assert_eq!(cache.history(3), vec![point(0, 7, 5)]);
}

#[test]
fn a_live_cycle_stays_within_change_and_jitter() {
    let mut cache = PriceCache::new();
    let p = SynthesisParams::standard();
    cache.set_current(3, amt(100_000), 0);
    for _ in 0..50 {
        let before = cache.price_of(3).unwrap().millis;
        let price = calculate_asset_price(&mut cache, 3, None, &signals(0, 0, 0, 0, 0), &p).unwrap();
        assert!(price.millis >= 1);
        // no pressure: only jitter of at most one percent moves the price
        assert!(price.millis as u128 * 100 >= before as u128 * 99 - 100);
        assert!(price.millis as u128 * 100 <= before as u128 * 101 + 100);
        assert_eq!(cache.price_of(3), Some(price));
        assert_eq!(cache.history(3).len(), 1);
    }
}

#[test]
fn one_failing_asset_does_not_stop_the_others() {
    let mut cache = PriceCache::new();
    let p = SynthesisParams::standard();
    cache.set_current(2, amt(u64::MAX), 0);
    let buy = signals(3_000_000, 0, 0, 0, 0);
    let inputs = vec![
        AssetInput { asset_id: 1, snapshot: Some(amt(50_000)), signals: buy },
        AssetInput { asset_id: 2, snapshot: None, signals: buy },
        AssetInput { asset_id: 3, snapshot: None, signals: buy },
    ];
    let out = update_all_asset_prices(&mut cache, &inputs, &p);
    assert_eq!(out.len(), 3);
    assert!(out[0].is_ok());
    assert_eq!(out[1], Err(SynthesisError::Overflow));
    assert!(out[2].is_ok());
    assert_eq!(cache.price_of(1), Some(out[0].unwrap()));
    assert_eq!(cache.price_of(2), Some(amt(u64::MAX)));
    assert_eq!(cache.price_of(3), Some(out[2].unwrap()));
    // from 50.000 and from 1.000, with a push of 0.9969% and jitter within 1%
    assert!(out[0].unwrap().millis >= 49_998 && out[0].unwrap().millis <= 50_999);
    assert!(out[2].unwrap().millis >= 999 && out[2].unwrap().millis <= 1_020);
}

#[test]
fn snapshot_copies_cached_prices_only() {
    let mut cache = PriceCache::new();
    cache.set_current(1, amt(1_500), 10);
    cache.set_current(3, amt(3_500), 10);
    let mut table = vec![PriceSnapshot { asset_id: 9, price: amt(1), created_at: 1 }];
    let written = save_prices_executor(&cache, &vec![1, 2, 3], &mut table, 500);
    assert_eq!(written, 2);
    assert_eq!(
        table,
        vec![
            PriceSnapshot { asset_id: 9, price: amt(1), created_at: 1 },
            PriceSnapshot { asset_id: 1, price: amt(1_500), created_at: 500 },
            PriceSnapshot { asset_id: 3, price: amt(3_500), created_at: 500 },
        ]
    );
    let written = save_prices_executor(&PriceCache::new(), &vec![1, 2, 3], &mut table, 600);
    assert_eq!(written, 0);
    assert_eq!(table.len(), 3);
}

#[test]
fn latest_snapshot_seeds_a_cold_start() {
    let table = vec![
        PriceSnapshot { asset_id: 1, price: amt(10), created_at: 100 },
        PriceSnapshot { asset_id: 2, price: amt(20), created_at: 300 },
        PriceSnapshot { asset_id: 1, price: amt(11), created_at: 200 },
        PriceSnapshot { asset_id: 1, price: amt(12), created_at: 150 },
        PriceSnapshot { asset_id: 2, price: amt(21), created_at: 300 },
    ];
    assert_eq!(latest_snapshot_price(&table, 1), Some(amt(11)));
    assert_eq!(latest_snapshot_price(&table, 2), Some(amt(21)));
    assert_eq!(latest_snapshot_price(&table, 3), None);
    assert_eq!(latest_snapshot_price(&vec![], 1), None);
    let seeded = resolve_old_price(None, latest_snapshot_price(&table, 1));
    assert_eq!(seeded, amt(11));
}

#[test]
fn a_live_cycle_succeeds_while_the_double_fits() {
    let p = SynthesisParams::standard();
    let crash = signals(0, u64::MAX, u64::MAX, 0, u64::MAX);
    let boom = signals(u64::MAX, 0, 0, u64::MAX, 0);
    for old in [0u64, 1, 1_000, u64::MAX / 2] {
        for s in [&crash, &boom] {
            let mut cache = PriceCache::new();
            cache.set_current(3, amt(old), 0);
            let price = calculate_asset_price(&mut cache, 3, None, s, &p).unwrap();
            assert!(price.millis >= 1);
            assert_eq!(cache.price_of(3), Some(price));
            let history = cache.history(3);
            assert_eq!(history.len(), 1);
            assert_eq!(history[0].price, price);
            assert_eq!(history[0].bucket, bucket_of(history[0].emitted_at));
            assert!(history[0].emitted_at >= 0);
        }
    }
}

#[test]
fn the_update_loop_writes_history_for_every_success() {
    let mut cache = PriceCache::new();
    let p = SynthesisParams::standard();
    cache.append_history(1, amt(7), 60);
    cache.append_history(4, amt(8), 60);
    let calm = signals(0, 0, 0, 0, 0);
    let inputs = vec![
        AssetInput { asset_id: 1, snapshot: Some(amt(50_000)), signals: calm },
        AssetInput { asset_id: 2, snapshot: None, signals: calm },
    ];
    let out = update_all_asset_prices(&mut cache, &inputs, &p);
    assert!(out[0].is_ok() && out[1].is_ok());
    // the point of 1970 is pruned, the new point is there
    let first = cache.history(1);
    assert_eq!(first.len(), 1);
    assert_eq!(first[0].price, out[0].unwrap());
    let second = cache.history(2);
    assert_eq!(second.len(), 1);
    assert_eq!(second[0].price, out[1].unwrap());
    // an asset that was not among the inputs keeps what it had
    assert_eq!(cache.history(4), vec![point(60, 8, 60)]);
    assert_eq!(cache.price_of(4), None);
}

#[test]
fn a_failed_read_does_not_hold_the_snapshot_back() {
    let reads = vec![
        PriceRead { asset_id: 1, outcome: Ok(Some(amt(1_500))) },
        PriceRead { asset_id: 2, outcome: Err(ReadFailure::Unavailable) },
        PriceRead { asset_id: 3, outcome: Ok(None) },
        PriceRead { asset_id: 4, outcome: Err(ReadFailure::Unparseable) },
        PriceRead { asset_id: 5, outcome: Ok(Some(amt(0))) },
    ];
    assert_eq!(
        snapshot_of_reads(&reads, 500),
        vec![
            PriceSnapshot { asset_id: 1, price: amt(1_500), created_at: 500 },
            PriceSnapshot { asset_id: 5, price: amt(0), created_at: 500 },
        ]
    );
    assert_eq!(snapshot_of_reads(&vec![], 500), vec![]);
    let lost = vec![PriceRead { asset_id: 1, outcome: Err(ReadFailure::Unavailable) }];
    assert_eq!(snapshot_of_reads(&lost, 500), vec![]);
}
