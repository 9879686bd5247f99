use trade_game::engine::market_buy;
use trade_game::engine::market_sell;
use trade_game::engine::order_buy;
use trade_game::engine::order_cancel;
use trade_game::engine::order_create;
use trade_game::engine::order_sell;
use trade_game::fixed::Amount;
use trade_game::ledger::Ledger;
use trade_game::orders::OrderStatus;
use trade_game::orders::OrderType;
use trade_game::orders::SettlementError;
use trade_game::orders::Trade;
use trade_game::price_cache::get_price_by_asset_id;
use trade_game::price_cache::PriceCache;
use trade_game::settlement::plan_cancel;
use trade_game::settlement::plan_create_buy;
use trade_game::settlement::plan_create_sell;
use trade_game::settlement::plan_market_buy;
use trade_game::settlement::plan_market_sell;
use trade_game::settlement::plan_fill_buy;
use trade_game::settlement::plan_fill_sell;
use trade_game::writes::cancel_writes;
use trade_game::writes::fill_buy_writes;
use trade_game::writes::fill_sell_writes;
use trade_game::writes::market_buy_writes;
use trade_game::writes::market_sell_writes;
use trade_game::writes::order_create_writes;
use trade_game::writes::Write;

fn amt(millis: u64) -> Amount {
    Amount::from_millis(millis)
}

fn cache_with(asset: i32, price: u64) -> PriceCache {
    let mut cache = PriceCache::new();
    cache.set_current(asset, amt(price), 1_700_000_000);
    cache
}

fn snapshot(ledger: &Ledger, users: &[i32], assets: &[i32]) -> (Vec<Option<Amount>>, Vec<Option<Amount>>, usize, usize) {
    let mut balances = Vec::new();
    let mut holdings = Vec::new();
    for u in users {
        balances.push(ledger.balance_of(*u));
        for a in assets {
            holdings.push(ledger.holding_of(*u, *a));
        }
    }
    (balances, holdings, ledger.order_count(), ledger.trade_count())
}

#[test]
fn market_buy_debits_cost_and_credits_net_units() {
    let mut ledger = Ledger::new();
    ledger.set_balance(1, amt(1_000_000));
    let cache = cache_with(5, 12_500);
    // 4 units at 12.500: cost 50.000; commission 0.400 units, 3.600 received
    let r = market_buy(&mut ledger, &cache, 1, 5, amt(4_000), 77).unwrap();
    assert_eq!(r.cost, amt(50_000));
    assert_eq!(r.commission, amt(400));
    assert_eq!(r.received, amt(3_600));
    assert_eq!(r.balance, amt(950_000));
    assert_eq!(r.holding, amt(3_600));
    assert_eq!(ledger.balance_of(1), Some(amt(950_000)));
    assert_eq!(ledger.holding_of(1, 5), Some(amt(3_600)));
    assert_eq!(ledger.trade_count(), 1);
    assert_eq!(
        ledger.trade(0),
        Some(Trade {
            user_id: 1,
            asset_id: 5,
            trade_type: OrderType::Buy,
            price: amt(12_500),
            amount: amt(3_600),
            created_at: 77,
        })
    );
    // conservation of both legs
    assert_eq!(r.received.millis + r.commission.millis, 4_000);
    assert_eq!(r.balance.millis + r.cost.millis, 1_000_000);
}

#[test]
fn market_buy_adds_to_an_existing_holding() {
    let mut ledger = Ledger::new();
    ledger.set_balance(1, amt(10_000));
    ledger.set_holding(1, 5, amt(1_000));
    let cache = cache_with(5, 1_000);
    let r = market_buy(&mut ledger, &cache, 1, 5, amt(10_000), 0).unwrap();
    assert_eq!(r.cost, amt(10_000));
    assert_eq!(ledger.balance_of(1), Some(amt(0)));
    assert_eq!(ledger.holding_of(1, 5), Some(amt(10_000)));
}

#[test]
fn market_buy_is_refused_without_effect() {
    let mut ledger = Ledger::new();
    ledger.set_balance(1, amt(49_999));
    let cold = PriceCache::new();
    let cache = cache_with(5, 12_500);
    let before = snapshot(&ledger, &[1, 2], &[5]);

    assert_eq!(market_buy(&mut ledger, &cold, 1, 5, amt(4_000), 0), Err(SettlementError::PriceUnavailable));
    assert_eq!(market_buy(&mut ledger, &cache, 2, 5, amt(4_000), 0), Err(SettlementError::UserNotFound));
    assert_eq!(market_buy(&mut ledger, &cache, 1, 5, amt(4_000), 0), Err(SettlementError::InsufficientFunds));
    assert_eq!(market_buy(&mut ledger, &cache, 1, 5, amt(u64::MAX), 0), Err(SettlementError::InsufficientFunds));
    assert_eq!(snapshot(&ledger, &[1, 2], &[5]), before);

    ledger.set_holding(1, 5, amt(u64::MAX));
    assert_eq!(market_buy(&mut ledger, &cache, 1, 5, amt(1_000), 0), Err(SettlementError::Overflow));
    assert_eq!(ledger.balance_of(1), Some(amt(49_999)));
    assert_eq!(ledger.holding_of(1, 5), Some(amt(u64::MAX)));
    assert_eq!(ledger.trade_count(), 0);
}

#[test]
fn market_sell_debits_units_and_credits_net_cash() {
    let mut ledger = Ledger::new();
    ledger.set_balance(1, amt(1_000));
    ledger.set_holding(1, 5, amt(10_000));
    let cache = cache_with(5, 12_500);
    // 4 units at 12.500: proceeds 50.000; commission 5.000, 45.000 received
    let r = market_sell(&mut ledger, &cache, 1, 5, amt(4_000), 88).unwrap();
    assert_eq!(r.proceeds, amt(50_000));
    assert_eq!(r.commission, amt(5_000));
    assert_eq!(r.received, amt(45_000));
    assert_eq!(ledger.balance_of(1), Some(amt(46_000)));
    assert_eq!(ledger.holding_of(1, 5), Some(amt(6_000)));
    assert_eq!(
        ledger.trade(0),
        Some(Trade {
            user_id: 1,
            asset_id: 5,
            trade_type: OrderType::Sell,
            price: amt(12_500),
            amount: amt(4_000),
            created_at: 88,
        })
    );
    assert_eq!(r.received.millis + r.commission.millis, r.proceeds.millis);
}

#[test]
fn market_sell_is_refused_without_effect() {
    let mut ledger = Ledger::new();
    ledger.set_balance(1, amt(1_000));
    ledger.set_holding(1, 5, amt(3_999));
    ledger.set_holding(2, 5, amt(9_000));
    let cold = PriceCache::new();
    let cache = cache_with(5, 12_500);
    let before = snapshot(&ledger, &[1, 2], &[5, 6]);

    assert_eq!(market_sell(&mut ledger, &cold, 1, 5, amt(1), 0), Err(SettlementError::PriceUnavailable));
    assert_eq!(market_sell(&mut ledger, &cache_with(6, 1), 1, 6, amt(1), 0), Err(SettlementError::HoldingNotFound));
    assert_eq!(market_sell(&mut ledger, &cache, 2, 5, amt(1), 0), Err(SettlementError::UserNotFound));
    assert_eq!(market_sell(&mut ledger, &cache, 1, 5, amt(4_000), 0), Err(SettlementError::InsufficientHoldings));
    assert_eq!(snapshot(&ledger, &[1, 2], &[5, 6]), before);

    ledger.set_balance(1, amt(u64::MAX));
    assert_eq!(market_sell(&mut ledger, &cache, 1, 5, amt(1_000), 0), Err(SettlementError::Overflow));
    assert_eq!(ledger.holding_of(1, 5), Some(amt(3_999)));
    assert_eq!(ledger.balance_of(1), Some(amt(u64::MAX)));
}

#[test]
fn sell_order_needs_a_holding_and_cancel_gives_it_back() {
    let a = 1;
    let mut ledger = Ledger::new();
    ledger.set_balance(a, amt(10_000_000));
    assert_eq!(
        order_create(&mut ledger, a, 1, OrderType::Sell, amt(50_000), amt(2_000), 10),
        Err(SettlementError::InsufficientHoldings)
    );
    assert_eq!(ledger.order_count(), 0);
    assert_eq!(ledger.holding_of(a, 1), None);
    assert_eq!(ledger.balance_of(a), Some(amt(10_000_000)));

    ledger.set_holding(a, 1, amt(2_000));
    let id = order_create(&mut ledger, a, 1, OrderType::Sell, amt(50_000), amt(2_000), 11).unwrap();
    assert_eq!(id, 1);
    assert_eq!(ledger.holding_of(a, 1), Some(amt(0)));
    let order = ledger.order(id).unwrap();
    assert_eq!(order.status, OrderStatus::Pending);
    assert_eq!(order.order_type, OrderType::Sell);
    assert_eq!(order.price, amt(50_000));
    assert_eq!(order.amount, amt(2_000));
    assert_eq!(order.user_id, a);
    assert_eq!(order.created_at, 11);

    assert_eq!(order_cancel(&mut ledger, a, id, 12), Ok(amt(2_000)));
    assert_eq!(ledger.holding_of(a, 1), Some(amt(2_000)));
    let order = ledger.order(id).unwrap();
    assert_eq!(order.status, OrderStatus::Cancel);
    assert_eq!(order.updated_at, 12);
    assert_eq!(ledger.balance_of(a), Some(amt(10_000_000)));
    assert_eq!(ledger.trade_count(), 0);
}

#[test]
fn buy_order_reserves_its_price() {
    let mut ledger = Ledger::new();
    ledger.set_balance(1, amt(60_000));
    assert_eq!(
        order_create(&mut ledger, 2, 1, OrderType::Buy, amt(50_000), amt(2_000), 0),
        Err(SettlementError::UserNotFound)
    );
    assert_eq!(
        order_create(&mut ledger, 1, 1, OrderType::Buy, amt(60_001), amt(2_000), 0),
        Err(SettlementError::InsufficientFunds)
    );
    assert_eq!(ledger.balance_of(1), Some(amt(60_000)));
    let id = order_create(&mut ledger, 1, 1, OrderType::Buy, amt(50_000), amt(2_000), 0).unwrap();
    assert_eq!(ledger.balance_of(1), Some(amt(10_000)));
    let second = order_create(&mut ledger, 1, 1, OrderType::Buy, amt(10_000), amt(1), 0).unwrap();
    assert_eq!((id, second), (1, 2));
    assert_eq!(ledger.balance_of(1), Some(amt(0)));
    assert_eq!(order_cancel(&mut ledger, 1, id, 5), Ok(amt(50_000)));
    assert_eq!(ledger.balance_of(1), Some(amt(50_000)));
}

#[test]
fn filling_a_buy_order() {
    let (owner, filler) = (1, 2);
    let mut ledger = Ledger::new();
    ledger.set_balance(owner, amt(100_000));
    ledger.set_balance(filler, amt(5_000));
    ledger.set_holding(filler, 9, amt(3_000));
    let id = order_create(&mut ledger, owner, 9, OrderType::Buy, amt(40_000), amt(2_000), 1).unwrap();
    assert_eq!(ledger.balance_of(owner), Some(amt(60_000)));

    let r = order_buy(&mut ledger, filler, id, 2).unwrap();
    assert_eq!(r.filler_holding, amt(1_000));
    assert_eq!(r.filler_balance, amt(45_000));
    assert_eq!(r.credited, amt(1_800));
    assert_eq!(r.commission, amt(200));
    assert_eq!(r.owner_holding, amt(1_800));
    assert_eq!(ledger.holding_of(filler, 9), Some(amt(1_000)));
    assert_eq!(ledger.balance_of(filler), Some(amt(45_000)));
    assert_eq!(ledger.holding_of(owner, 9), Some(amt(1_800)));
    assert_eq!(ledger.balance_of(owner), Some(amt(60_000)));
    let order = ledger.order(id).unwrap();
    assert_eq!(order.status, OrderStatus::Done);
    assert_eq!(order.updated_at, 2);
    assert_eq!(ledger.trade_count(), 2);
    assert_eq!(
        ledger.trade(0),
        Some(Trade { user_id: filler, asset_id: 9, trade_type: OrderType::Sell, price: amt(40_000), amount: amt(2_000), created_at: 2 })
    );
    assert_eq!(
        ledger.trade(1),
        Some(Trade { user_id: owner, asset_id: 9, trade_type: OrderType::Buy, price: amt(40_000), amount: amt(2_000), created_at: 2 })
    );
    // what the filler gave is what the owner got plus the commission
    assert_eq!(r.credited.millis + r.commission.millis, 2_000);
}

#[test]
fn filling_a_sell_order() {
    let (owner, filler) = (1, 2);
    let mut ledger = Ledger::new();
    ledger.set_balance(owner, amt(1_000));
    ledger.set_balance(filler, amt(50_000));
    ledger.set_holding(owner, 9, amt(2_000));
    let id = order_create(&mut ledger, owner, 9, OrderType::Sell, amt(40_000), amt(2_000), 1).unwrap();

    let r = order_sell(&mut ledger, filler, id, 2).unwrap();
    assert_eq!(r.filler_balance, amt(10_000));
    assert_eq!(r.credited, amt(36_000));
    assert_eq!(r.commission, amt(4_000));
    assert_eq!(r.owner_balance, amt(37_000));
    assert_eq!(r.filler_holding, amt(2_000));
    assert_eq!(ledger.balance_of(filler), Some(amt(10_000)));
    assert_eq!(ledger.balance_of(owner), Some(amt(37_000)));
    assert_eq!(ledger.holding_of(filler, 9), Some(amt(2_000)));
    assert_eq!(ledger.holding_of(owner, 9), Some(amt(0)));
    assert_eq!(ledger.order(id).unwrap().status, OrderStatus::Done);
    assert_eq!(
        ledger.trade(0),
        Some(Trade { user_id: filler, asset_id: 9, trade_type: OrderType::Buy, price: amt(40_000), amount: amt(2_000), created_at: 2 })
    );
    assert_eq!(
        ledger.trade(1),
        Some(Trade { user_id: owner, asset_id: 9, trade_type: OrderType::Sell, price: amt(40_000), amount: amt(2_000), created_at: 2 })
    );
    assert_eq!(r.credited.millis + r.commission.millis, 40_000);
}

#[test]
fn fills_are_refused_without_effect() {
    let (owner, filler, stranger) = (1, 2, 3);
    let mut ledger = Ledger::new();
    ledger.set_balance(owner, amt(100_000));
    ledger.set_balance(filler, amt(10_000));
    ledger.set_holding(owner, 9, amt(5_000));
    let buy = order_create(&mut ledger, owner, 9, OrderType::Buy, amt(40_000), amt(2_000), 1).unwrap();
    let sell = order_create(&mut ledger, owner, 9, OrderType::Sell, amt(40_000), amt(2_000), 1).unwrap();
    let before = snapshot(&ledger, &[owner, filler, stranger], &[9]);

    assert_eq!(order_buy(&mut ledger, filler, 99, 2), Err(SettlementError::OrderNotFound));
    assert_eq!(order_buy(&mut ledger, filler, 0, 2), Err(SettlementError::OrderNotFound));
    assert_eq!(order_buy(&mut ledger, filler, -1, 2), Err(SettlementError::OrderNotFound));
    assert_eq!(order_sell(&mut ledger, filler, 99, 2), Err(SettlementError::OrderNotFound));
    assert_eq!(order_buy(&mut ledger, owner, buy, 2), Err(SettlementError::InvalidState));
    assert_eq!(order_sell(&mut ledger, owner, sell, 2), Err(SettlementError::InvalidState));
    assert_eq!(order_buy(&mut ledger, filler, sell, 2), Err(SettlementError::InvalidState));
    assert_eq!(order_sell(&mut ledger, filler, buy, 2), Err(SettlementError::InvalidState));
    assert_eq!(order_buy(&mut ledger, filler, buy, 2), Err(SettlementError::HoldingNotFound));
    assert_eq!(order_sell(&mut ledger, stranger, sell, 2), Err(SettlementError::UserNotFound));
    assert_eq!(order_sell(&mut ledger, filler, sell, 2), Err(SettlementError::InsufficientFunds));
    assert_eq!(snapshot(&ledger, &[owner, filler, stranger], &[9]), before);

    ledger.set_holding(filler, 9, amt(1_999));
    assert_eq!(order_buy(&mut ledger, filler, buy, 2), Err(SettlementError::InsufficientHoldings));
    ledger.set_holding(stranger, 9, amt(2_000));
    assert_eq!(order_buy(&mut ledger, stranger, buy, 2), Err(SettlementError::UserNotFound));
    ledger.set_holding(filler, 9, amt(2_000));
    ledger.set_balance(filler, amt(u64::MAX));
    assert_eq!(order_buy(&mut ledger, filler, buy, 2), Err(SettlementError::Overflow));
    assert_eq!(ledger.holding_of(filler, 9), Some(amt(2_000)));
    assert_eq!(ledger.order(buy).unwrap().status, OrderStatus::Pending);
    assert_eq!(ledger.order(sell).unwrap().status, OrderStatus::Pending);
    assert_eq!(ledger.trade_count(), 0);
}

#[test]
fn a_closed_order_stays_closed() {
    let (owner, filler) = (1, 2);
    let mut ledger = Ledger::new();
    ledger.set_balance(owner, amt(100_000));
    ledger.set_balance(filler, amt(100_000));
    ledger.set_holding(owner, 9, amt(5_000));
    ledger.set_holding(filler, 9, amt(5_000));
    let done = order_create(&mut ledger, owner, 9, OrderType::Sell, amt(10_000), amt(1_000), 1).unwrap();
    let cancelled = order_create(&mut ledger, owner, 9, OrderType::Buy, amt(10_000), amt(1_000), 1).unwrap();
    order_sell(&mut ledger, filler, done, 2).unwrap();
    order_cancel(&mut ledger, owner, cancelled, 2).unwrap();
    let before = snapshot(&ledger, &[owner, filler], &[9]);
    let orders = (ledger.order(done), ledger.order(cancelled));

    for id in [done, cancelled] {
        for user in [owner, filler] {
            assert_eq!(order_buy(&mut ledger, user, id, 3), Err(SettlementError::InvalidState));
            assert_eq!(order_sell(&mut ledger, user, id, 3), Err(SettlementError::InvalidState));
            assert_eq!(order_cancel(&mut ledger, user, id, 3), Err(SettlementError::InvalidState));
        }
    }
    assert_eq!(snapshot(&ledger, &[owner, filler], &[9]), before);
    assert_eq!((ledger.order(done), ledger.order(cancelled)), orders);
    assert_eq!(ledger.order(done).unwrap().status, OrderStatus::Done);
    assert_eq!(ledger.order(cancelled).unwrap().status, OrderStatus::Cancel);
}

#[test]
fn cancel_is_for_the_owner_of_a_pending_order() {
    let mut ledger = Ledger::new();
    ledger.set_balance(1, amt(100_000));
    ledger.set_balance(2, amt(100_000));
    let id = order_create(&mut ledger, 1, 9, OrderType::Buy, amt(10_000), amt(1_000), 1).unwrap();
    assert_eq!(order_cancel(&mut ledger, 2, id, 2), Err(SettlementError::InvalidState));
    assert_eq!(order_cancel(&mut ledger, 1, 7, 2), Err(SettlementError::OrderNotFound));
    assert_eq!(ledger.balance_of(1), Some(amt(90_000)));
    assert_eq!(ledger.order(id).unwrap().status, OrderStatus::Pending);
}

#[test]
fn cancel_plans_report_missing_rows_and_overflow() {
    let mut ledger = Ledger::new();
    ledger.set_balance(1, amt(10));
    ledger.set_holding(1, 9, amt(10));
    let buy = order_create(&mut ledger, 1, 9, OrderType::Buy, amt(10), amt(1), 1).unwrap();
    let sell = order_create(&mut ledger, 1, 9, OrderType::Sell, amt(1), amt(10), 1).unwrap();
    let buy_order = ledger.order(buy);
    let sell_order = ledger.order(sell);
    assert_eq!(plan_cancel(None, 1, None, None), Err(SettlementError::OrderNotFound));
    assert_eq!(plan_cancel(buy_order, 1, None, Some(amt(0))), Err(SettlementError::UserNotFound));
    assert_eq!(plan_cancel(sell_order, 1, Some(amt(0)), None), Err(SettlementError::HoldingNotFound));
    assert_eq!(plan_cancel(buy_order, 1, Some(amt(u64::MAX)), None), Err(SettlementError::Overflow));
    assert_eq!(plan_cancel(sell_order, 1, None, Some(amt(u64::MAX - 9))), Err(SettlementError::Overflow));
    assert_eq!(plan_cancel(buy_order, 1, Some(amt(5)), None), Ok(amt(15)));
    assert_eq!(plan_cancel(sell_order, 1, None, Some(amt(5))), Ok(amt(15)));
}

#[test]
fn plans_decide_from_rows_alone() {
    assert_eq!(plan_create_buy(Some(amt(5)), amt(5)), Ok(amt(0)));
    assert_eq!(plan_create_buy(Some(amt(5)), amt(6)), Err(SettlementError::InsufficientFunds));
    assert_eq!(plan_create_buy(None, amt(0)), Err(SettlementError::UserNotFound));
    assert_eq!(plan_create_sell(Some(amt(5)), amt(5)), Ok(amt(0)));
    assert_eq!(plan_create_sell(None, amt(0)), Err(SettlementError::InsufficientHoldings));
    let buy = plan_market_buy(Some(amt(2_000)), Some(amt(10_000)), None, amt(1_500), amt(100)).unwrap();
    assert_eq!((buy.cost, buy.received, buy.commission), (amt(3_000), amt(1_350), amt(150)));
    assert_eq!((buy.balance, buy.holding), (amt(7_000), amt(1_350)));
    let sell = plan_market_sell(Some(amt(2_000)), Some(amt(0)), Some(amt(1_500)), amt(1_500), amt(100)).unwrap();
    assert_eq!((sell.proceeds, sell.received, sell.commission), (amt(3_000), amt(2_700), amt(300)));
    assert_eq!((sell.balance, sell.holding), (amt(2_700), amt(0)));
    assert_eq!(
        plan_market_sell(Some(amt(u64::MAX)), Some(amt(0)), Some(amt(2_000)), amt(2_000), amt(100)),
        Err(SettlementError::Overflow)
    );
}

#[test]
fn price_lookup_for_settlement() {
    let cache = cache_with(5, 12_500);
    assert_eq!(get_price_by_asset_id(&cache, 5), Ok(amt(12_500)));
    assert_eq!(get_price_by_asset_id(&cache, 6), Err(SettlementError::PriceUnavailable));
}

#[test]
fn failures_have_texts_and_labels() {
    assert_eq!(SettlementError::UserNotFound.message(), "Can't find user");
    assert_eq!(SettlementError::PriceUnavailable.message(), "Can't get price");
    assert_eq!(OrderStatus::Pending.label(), "pending");
    assert_eq!(OrderStatus::Done.label(), "done");
    assert_eq!(OrderStatus::Cancel.label(), "cancel");
    assert_eq!(OrderType::Buy.label(), "buy");
    assert_eq!(OrderType::Sell.label(), "sell");
}

#[test]
fn a_sale_of_the_whole_holding_records_the_units_sold() {
    let mut ledger = Ledger::new();
    ledger.set_balance(1, amt(0));
    ledger.set_holding(1, 5, amt(4_000));
    let cache = cache_with(5, 1_000);
    market_sell(&mut ledger, &cache, 1, 5, amt(4_000), 3).unwrap();
    assert_eq!(ledger.holding_of(1, 5), Some(amt(0)));
    assert_eq!(ledger.trade(0).unwrap().amount, amt(4_000));
}

#[test]
fn writes_come_in_the_order_of_taking_then_giving() {
    let trade = |user_id, trade_type, price: u64, amount: u64, created_at| Write::Trade {
        trade: Trade { user_id, asset_id: 9, trade_type, price: amt(price), amount: amt(amount), created_at },
    };

    let buy = plan_market_buy(Some(amt(2_000)), Some(amt(10_000)), None, amt(1_500), amt(100)).unwrap();
    assert_eq!(
        market_buy_writes(&buy, 1, 9, amt(2_000), 7),
        vec![
            Write::Balance { user_id: 1, amount: amt(7_000) },
            Write::Holding { user_id: 1, asset_id: 9, amount: amt(1_350) },
            trade(1, OrderType::Buy, 2_000, 1_350, 7),
        ]
    );
    let sell = plan_market_sell(Some(amt(2_000)), Some(amt(0)), Some(amt(5_000)), amt(1_500), amt(100)).unwrap();
    assert_eq!(
        market_sell_writes(&sell, 1, 9, amt(2_000), amt(1_500), 7),
        vec![
            Write::Holding { user_id: 1, asset_id: 9, amount: amt(3_500) },
            Write::Balance { user_id: 1, amount: amt(2_700) },
            trade(1, OrderType::Sell, 2_000, 1_500, 7),
        ]
    );
    assert_eq!(
        order_create_writes(amt(5), 1, 9, OrderType::Buy, amt(10), amt(3), 7),
        vec![
            Write::Balance { user_id: 1, amount: amt(5) },
            Write::NewOrder { user_id: 1, asset_id: 9, order_type: OrderType::Buy, price: amt(10), amount: amt(3), now: 7 },
        ]
    );
    assert_eq!(
        order_create_writes(amt(5), 1, 9, OrderType::Sell, amt(10), amt(3), 7),
        vec![
            Write::Holding { user_id: 1, asset_id: 9, amount: amt(5) },
            Write::NewOrder { user_id: 1, asset_id: 9, order_type: OrderType::Sell, price: amt(10), amount: amt(3), now: 7 },
        ]
    );

    let mut ledger = Ledger::new();
    ledger.set_balance(1, amt(100_000));
    ledger.set_holding(1, 9, amt(5_000));
    let buy_id = order_create(&mut ledger, 1, 9, OrderType::Buy, amt(40_000), amt(2_000), 1).unwrap();
    let sell_id = order_create(&mut ledger, 1, 9, OrderType::Sell, amt(40_000), amt(2_000), 1).unwrap();
    let buy_order = ledger.order(buy_id).unwrap();
    let sell_order = ledger.order(sell_id).unwrap();

    let fill = plan_fill_buy(Some(buy_order), 2, Some(amt(3_000)), Some(amt(5_000)), Some(amt(3_000)), amt(100)).unwrap();
    assert_eq!(
        fill_buy_writes(&fill, &buy_order, 2, 8),
        vec![
            Write::Holding { user_id: 2, asset_id: 9, amount: amt(1_000) },
            Write::Balance { user_id: 2, amount: amt(45_000) },
            Write::Holding { user_id: 1, asset_id: 9, amount: amt(4_800) },
            trade(2, OrderType::Sell, 40_000, 2_000, 8),
            trade(1, OrderType::Buy, 40_000, 2_000, 8),
            Write::CloseOrder { order_id: buy_id, status: OrderStatus::Done, now: 8 },
        ]
    );
    let fill = plan_fill_sell(Some(sell_order), 2, Some(amt(50_000)), Some(amt(60_000)), None, amt(100)).unwrap();
    assert_eq!(
        fill_sell_writes(&fill, &sell_order, 2, 8),
        vec![
            Write::Balance { user_id: 2, amount: amt(10_000) },
            Write::Balance { user_id: 1, amount: amt(96_000) },
            Write::Holding { user_id: 2, asset_id: 9, amount: amt(2_000) },
            trade(2, OrderType::Buy, 40_000, 2_000, 8),
            trade(1, OrderType::Sell, 40_000, 2_000, 8),
            Write::CloseOrder { order_id: sell_id, status: OrderStatus::Done, now: 8 },
        ]
    );
    assert_eq!(
        cancel_writes(amt(100_000), &buy_order, 9),
        vec![
            Write::Balance { user_id: 1, amount: amt(100_000) },
            Write::CloseOrder { order_id: buy_id, status: OrderStatus::Cancel, now: 9 },
        ]
    );
    assert_eq!(
        cancel_writes(amt(5_000), &sell_order, 9),
        vec![
            Write::Holding { user_id: 1, asset_id: 9, amount: amt(5_000) },
            Write::CloseOrder { order_id: sell_id, status: OrderStatus::Cancel, now: 9 },
        ]
    );
}
