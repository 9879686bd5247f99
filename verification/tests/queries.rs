use trade_game::engine::market_buy;
use trade_game::engine::order_cancel;
use trade_game::engine::order_create;
use trade_game::engine::order_sell;
use trade_game::fixed::Amount;
use trade_game::ledger::Ledger;
use trade_game::orders::OrderStatus;
use trade_game::orders::OrderType;
use trade_game::orders::SettlementError;
use trade_game::price_cache::PriceCache;
use trade_game::queries::pending_amount;
use trade_game::queries::price_history;
use trade_game::queries::trades_history;
use trade_game::queries::user_orders;
use trade_game::queries::user_orders_by_user;
use trade_game::requests::CommonResponse;
use trade_game::requests::OrderQuery;
use trade_game::requests::OrdersPath;
use trade_game::requests::OrdersPathByUser;
use trade_game::requests::PricePath;
use trade_game::requests::ResponseStatus;
use trade_game::requests::TradePath;
use trade_game::queries::account;
use trade_game::queries::holdings_or_zero;
use trade_game::queries::select_orders;
use trade_game::queries::select_trades;

fn amt(millis: u64) -> Amount {
    Amount::from_millis(millis)
}

fn books() -> Ledger {
    let mut ledger = Ledger::new();
    ledger.set_balance(1, amt(1_000_000));
    ledger.set_balance(2, amt(1_000_000));
    ledger.set_holding(1, 9, amt(50_000));
    ledger.set_holding(2, 9, amt(50_000));
    // ids 1..=6
    order_create(&mut ledger, 1, 9, OrderType::Buy, amt(10_000), amt(1_000), 1).unwrap();
    order_create(&mut ledger, 1, 9, OrderType::Sell, amt(10_000), amt(2_000), 2).unwrap();
    order_create(&mut ledger, 2, 9, OrderType::Buy, amt(10_000), amt(4_000), 3).unwrap();
    order_create(&mut ledger, 2, 8, OrderType::Buy, amt(10_000), amt(8_000), 4).unwrap();
    order_create(&mut ledger, 2, 9, OrderType::Sell, amt(10_000), amt(16_000), 5).unwrap();
    order_create(&mut ledger, 1, 9, OrderType::Buy, amt(10_000), amt(32_000), 6).unwrap();
    order_cancel(&mut ledger, 1, 1, 7).unwrap();
    order_sell(&mut ledger, 1, 5, 8).unwrap();
    ledger
}

fn ids(orders: &Vec<trade_game::orders::Order>) -> Vec<i32> {
    orders.iter().map(|o| o.id).collect()
}

fn query(limit: u64, offset: Option<u64>, status: Option<OrderStatus>, order_type: Option<OrderType>) -> OrderQuery {
    OrderQuery { limit, offset, status, order_type }
}

#[test]
fn orders_of_an_asset() {
    let ledger = books();
    let path = OrdersPath { asset_id: 9 };
    assert_eq!(ids(&user_orders(&ledger, &path, &query(10, None, None, None))), vec![1, 2, 3, 5, 6]);
    assert_eq!(ids(&user_orders(&ledger, &path, &query(10, None, Some(OrderStatus::Pending), None))), vec![2, 3, 6]);
    assert_eq!(ids(&user_orders(&ledger, &path, &query(10, None, Some(OrderStatus::Cancel), None))), vec![1]);
    assert_eq!(ids(&user_orders(&ledger, &path, &query(10, None, Some(OrderStatus::Done), None))), vec![5]);
    assert_eq!(ids(&user_orders(&ledger, &path, &query(10, None, None, Some(OrderType::Buy)))), vec![1, 3, 6]);
    assert_eq!(
        ids(&user_orders(&ledger, &path, &query(10, None, Some(OrderStatus::Pending), Some(OrderType::Buy)))),
        vec![3, 6]
    );
    assert_eq!(ids(&user_orders(&ledger, &OrdersPath { asset_id: 7 }, &query(10, None, None, None))), Vec::<i32>::new());
}

#[test]
fn orders_come_in_pages() {
    let ledger = books();
    let path = OrdersPath { asset_id: 9 };
    assert_eq!(ids(&user_orders(&ledger, &path, &query(2, None, None, None))), vec![1, 2]);
    assert_eq!(ids(&user_orders(&ledger, &path, &query(2, Some(0), None, None))), vec![1, 2]);
    assert_eq!(ids(&user_orders(&ledger, &path, &query(2, Some(2), None, None))), vec![3, 5]);
    assert_eq!(ids(&user_orders(&ledger, &path, &query(2, Some(4), None, None))), vec![6]);
    assert_eq!(ids(&user_orders(&ledger, &path, &query(2, Some(5), None, None))), Vec::<i32>::new());
    assert_eq!(ids(&user_orders(&ledger, &path, &query(0, None, None, None))), Vec::<i32>::new());
    assert_eq!(ids(&user_orders(&ledger, &path, &query(u64::MAX, Some(u64::MAX), None, None))), Vec::<i32>::new());
    assert_eq!(ids(&user_orders(&ledger, &path, &query(u64::MAX, Some(1), None, None))), vec![2, 3, 5, 6]);
}

#[test]
fn orders_of_a_user() {
    let ledger = books();
    let mine = OrdersPathByUser { user_id: 1, asset_id: 9 };
    let theirs = OrdersPathByUser { user_id: 2, asset_id: 9 };
    assert_eq!(ids(&user_orders_by_user(&ledger, &mine, &query(10, None, None, None))), vec![1, 2, 6]);
    assert_eq!(ids(&user_orders_by_user(&ledger, &theirs, &query(10, None, None, None))), vec![3, 5]);
    assert_eq!(ids(&user_orders_by_user(&ledger, &mine, &query(1, Some(1), Some(OrderStatus::Pending), None))), vec![6]);
}

#[test]
fn pending_volume_by_side() {
    let ledger = books();
    assert_eq!(pending_amount(&ledger, 9, OrderType::Buy), amt(36_000));
    assert_eq!(pending_amount(&ledger, 9, OrderType::Sell), amt(2_000));
    assert_eq!(pending_amount(&ledger, 8, OrderType::Buy), amt(8_000));
    assert_eq!(pending_amount(&ledger, 8, OrderType::Sell), amt(0));
    let mut big = Ledger::new();
    big.set_balance(1, amt(10));
    order_create(&mut big, 1, 9, OrderType::Buy, amt(1), amt(u64::MAX), 1).unwrap();
    order_create(&mut big, 1, 9, OrderType::Buy, amt(1), amt(5), 1).unwrap();
    assert_eq!(pending_amount(&big, 9, OrderType::Buy), amt(u64::MAX));
}

#[test]
fn trades_of_a_user() {
    let mut ledger = books();
    let mut cache = PriceCache::new();
    cache.set_current(9, amt(2_000), 0);
    market_buy(&mut ledger, &cache, 2, 9, amt(1_000), 9).unwrap();
    let mine = trades_history(&ledger, &TradePath { user_id: 1 }).unwrap();
    assert_eq!(mine.len(), 1);
    assert_eq!((mine[0].trade_type, mine[0].amount, mine[0].created_at), (OrderType::Buy, amt(16_000), 8));
    let theirs = trades_history(&ledger, &TradePath { user_id: 2 }).unwrap();
    assert_eq!(theirs.len(), 2);
    assert_eq!((theirs[0].trade_type, theirs[0].created_at), (OrderType::Sell, 8));
    assert_eq!((theirs[1].trade_type, theirs[1].amount, theirs[1].created_at), (OrderType::Buy, amt(900), 9));
    assert_eq!(trades_history(&ledger, &TradePath { user_id: 3 }), Err(SettlementError::UserNotFound));
}

#[test]
fn price_history_of_the_last_day() {
    let mut cache = PriceCache::new();
    cache.append_history(3, amt(1), 60);
    cache.append_history(3, amt(2), 86_460);
    cache.append_history(3, amt(3), 90_000);
    let path = PricePath { asset_id: 3 };
    assert_eq!(price_history(&cache, &path, 86_459).len(), 3);
    assert_eq!(price_history(&cache, &path, 86_460).len(), 3);
    let recent = price_history(&cache, &path, 86_461);
    assert_eq!(recent.len(), 2);
    assert_eq!(recent[0].bucket, 86_460);
    assert_eq!(recent[1].price, amt(3));
    assert_eq!(price_history(&cache, &path, i64::MIN).len(), 3);
    assert_eq!(price_history(&cache, &path, i64::MAX).len(), 0);
    assert_eq!(price_history(&cache, &PricePath { asset_id: 4 }, 0).len(), 0);
}

#[test]
fn responses_carry_a_result_or_a_failure() {
    let ok = CommonResponse::success(5);
    assert_eq!(ok.status, ResponseStatus::Success);
    assert_eq!(ok.data, 5);
    assert_eq!(ok.error, None);
    let bad = CommonResponse::failure((), SettlementError::InsufficientFunds.message());
    assert_eq!(bad.status, ResponseStatus::Error);
    assert_eq!(bad.error, Some("Not enough balance".to_string()));
}

#[test]
fn balance_and_holdings_of_a_user() {
    let ledger = books();
    let info = trade_game::queries::user_info(&ledger, &trade_game::requests::UserIdQuery { user_id: 1 });
    // 1000.000, less a reserve of 10.000 twice, one given back, less 10.000 paid for a fill
    assert_eq!(info, Ok(amt(980_000)));
    assert_eq!(
        trade_game::queries::user_info(&ledger, &trade_game::requests::UserIdQuery { user_id: 3 }),
        Err(SettlementError::UserNotFound)
    );
    let path = trade_game::requests::AssetQuery { user_id: 1 };
    let held = trade_game::queries::user_assets(&ledger, &path, &vec![8, 9, 7]).unwrap();
    // 50.000, less 2.000 reserved, plus 16.000 bought
    assert_eq!(held, vec![(8, amt(0)), (9, amt(64_000)), (7, amt(0))]);
    assert_eq!(
        trade_game::queries::user_assets(&ledger, &trade_game::requests::AssetQuery { user_id: 3 }, &vec![9]),
        Err(SettlementError::UserNotFound)
    );
    assert_eq!(trade_game::queries::user_assets(&ledger, &path, &vec![]), Ok(vec![]));
}

#[test]
fn listings_from_rows() {
    let ledger = books();
    let rows = ledger.orders().clone();
    assert_eq!(ids(&select_orders(&rows, 9, None, &query(2, Some(1), None, None))), vec![2, 3]);
    assert_eq!(ids(&select_orders(&rows, 9, Some(2), &query(9, None, None, None))), vec![3, 5]);
    let trades = ledger.trades().clone();
    assert_eq!(select_trades(&trades, 1).len(), 1);
    assert_eq!(select_trades(&trades, 2).len(), 1);
    assert_eq!(select_trades(&trades, 3).len(), 0);
    assert_eq!(account(Some(amt(5))), Ok(amt(5)));
    assert_eq!(account(None), Err(SettlementError::UserNotFound));
    assert_eq!(
        holdings_or_zero(&vec![(8, None), (9, Some(amt(64_000)))]),
        vec![(8, amt(0)), (9, amt(64_000))]
    );
}

#[test]
fn lists_know_their_bound() {
    let mut list = trade_game::limited_list::LimitedList::new(2);
    for i in 0..10 {
        list.add(i);
        assert!(list.all().len() <= 2);
    }
    let mut timed = trade_game::limited_list_with_timeout::LimitedListWithTimeout::new(2);
    for i in 0..10 {
        timed.add(i, 0);
        assert!(timed.all().len() <= 2);
    }
}
