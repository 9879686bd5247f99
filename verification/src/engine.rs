//! The settlement operations on the books: each reads the rows it needs,
//! decides, and either writes every row of the settlement or refuses and
//! leaves the books as they were.

use crate::fixed::Amount;
use crate::ledger::Ledger;
use crate::ledger::LedgerView;
use crate::orders::Order;
use crate::orders::OrderStatus;
use crate::orders::OrderType;
use crate::orders::SettlementError;
use crate::orders::Trade;
use crate::price_cache::PriceCache;
use crate::price_cache::cached_price;
use crate::settlement::cancel_plan;
use crate::settlement::create_buy_plan;
use crate::settlement::create_sell_plan;
use crate::settlement::fill_buy_plan;
use crate::settlement::fill_sell_plan;
use crate::settlement::market_buy_plan;
use crate::settlement::market_sell_plan;
use crate::settlement::plan_cancel;
use crate::settlement::plan_create_buy;
use crate::settlement::plan_create_sell;
use crate::settlement::plan_fill_buy;
use crate::settlement::plan_fill_sell;
use crate::settlement::plan_market_buy;
use crate::settlement::plan_market_sell;
use crate::settlement::FillBuy;
use crate::settlement::FillSell;
use crate::settlement::MarketBuy;
use crate::settlement::MarketSell;
use crate::settlement::COMMISSION_MARKET_BUY;
use crate::settlement::COMMISSION_MARKET_SELL;
use crate::settlement::COMMISSION_ORDER_BUY;
use crate::settlement::COMMISSION_ORDER_SELL;
use crate::writes::applied;
use crate::writes::applied_all;
use crate::writes::cancel_steps;
use crate::writes::fill_buy_steps;
use crate::writes::fill_sell_steps;
use crate::writes::market_buy_steps;
use crate::writes::market_sell_steps;
use crate::writes::order_create_steps;
use crate::writes::Write;
use vstd::prelude::*;

verus! {

/// A rate given in thousandths.
pub open spec fn rate_of(millis: u64) -> Amount {
    Amount { millis: millis }
}

/// The books after a market buy that was decided as `outcome`.
pub open spec fn after_market_buy(
    pre: LedgerView,
    outcome: Result<MarketBuy, SettlementError>,
    user: i32,
    asset: i32,
    price: Option<Amount>,
    now: i64,
) -> LedgerView {
    match outcome {
        Err(_) => pre,
        Ok(p) => pre.with_balance(user, p.balance).with_holding(user, asset, p.holding).with_trade(
            Trade {
                user_id: user,
                asset_id: asset,
                trade_type: OrderType::Buy,
                price: price.unwrap(),
                amount: p.received,
                created_at: now,
            },
        ),
    }
}

/// The books after a market sell of `amount` units that was decided as
/// `outcome`. The trade row records the units sold.
pub open spec fn after_market_sell(
    pre: LedgerView,
    outcome: Result<MarketSell, SettlementError>,
    user: i32,
    asset: i32,
    price: Option<Amount>,
    amount: Amount,
    now: i64,
) -> LedgerView {
    match outcome {
        Err(_) => pre,
        Ok(p) => pre.with_holding(user, asset, p.holding).with_balance(user, p.balance).with_trade(
            Trade {
                user_id: user,
                asset_id: asset,
                trade_type: OrderType::Sell,
                price: price.unwrap(),
                amount: amount,
                created_at: now,
            },
        ),
    }
}

/// The order that `order_create` places.
pub open spec fn placed_order(
    pre: LedgerView,
    user: i32,
    asset: i32,
    side: OrderType,
    price: Amount,
    amount: Amount,
    now: i64,
) -> Order {
    Order {
        id: (pre.orders.len() + 1) as i32,
        user_id: user,
        asset_id: asset,
        order_type: side,
        price: price,
        amount: amount,
        status: OrderStatus::Pending,
        created_at: now,
        updated_at: now,
    }
}

/// What is left of the reserved row when an order is placed, or why the
/// order is refused.
pub open spec fn create_plan(
    pre: LedgerView,
    user: i32,
    asset: i32,
    side: OrderType,
    price: Amount,
    amount: Amount,
) -> Result<Amount, SettlementError> {
    let reserve = match side {
        OrderType::Buy => create_buy_plan(pre.balance(user), price),
        OrderType::Sell => create_sell_plan(pre.holding(user, asset), amount),
    };
    if reserve is Ok && pre.orders.len() + 2 > i32::MAX {
        Err(SettlementError::Overflow)
    } else {
        reserve
    }
}

/// The books after an order was placed, or refused.
pub open spec fn after_create(
    pre: LedgerView,
    user: i32,
    asset: i32,
    side: OrderType,
    price: Amount,
    amount: Amount,
    now: i64,
) -> LedgerView {
    match create_plan(pre, user, asset, side, price, amount) {
        Err(_) => pre,
        Ok(left) => {
            let reserved = match side {
                OrderType::Buy => pre.with_balance(user, left),
                OrderType::Sell => pre.with_holding(user, asset, left),
            };
            reserved.with_order(placed_order(pre, user, asset, side, price, amount, now))
        },
    }
}

/// The order `o` closed with `status` at `now`.
pub open spec fn closed(o: Order, status: OrderStatus, now: i64) -> Order {
    Order { status: status, updated_at: now, ..o }
}

/// The two trade rows of a fill: the filler's first, then the owner's.
pub open spec fn with_fill_trades(
    pre: LedgerView,
    o: Order,
    filler: i32,
    filler_side: OrderType,
    owner_side: OrderType,
    now: i64,
) -> LedgerView {
    pre.with_trade(
        Trade {
            user_id: filler,
            asset_id: o.asset_id,
            trade_type: filler_side,
            price: o.price,
            amount: o.amount,
            created_at: now,
        },
    ).with_trade(
        Trade {
            user_id: o.user_id,
            asset_id: o.asset_id,
            trade_type: owner_side,
            price: o.price,
            amount: o.amount,
            created_at: now,
        },
    )
}

/// What the fill of the buy order `order_id` by `filler` is decided as.
pub open spec fn fill_buy_outcome(pre: LedgerView, filler: i32, order_id: i32) -> Result<
    FillBuy,
    SettlementError,
> {
    match pre.order(order_id) {
        None => Err(SettlementError::OrderNotFound),
        Some(o) => fill_buy_plan(
            Some(o),
            filler,
            pre.holding(filler, o.asset_id),
            pre.balance(filler),
            pre.holding(o.user_id, o.asset_id),
            rate_of(COMMISSION_ORDER_BUY),
        ),
    }
}

/// The books after the fill of a buy order, or after its refusal.
pub open spec fn after_fill_buy(pre: LedgerView, filler: i32, order_id: i32, now: i64) -> LedgerView {
    match fill_buy_outcome(pre, filler, order_id) {
        Err(_) => pre,
        Ok(p) => {
            let o = pre.order(order_id).unwrap();
            with_fill_trades(
                pre.with_holding(filler, o.asset_id, p.filler_holding).with_balance(
                    filler,
                    p.filler_balance,
                ).with_holding(o.user_id, o.asset_id, p.owner_holding),
                o,
                filler,
                OrderType::Sell,
                OrderType::Buy,
                now,
            ).with_order_at(order_id - 1, closed(o, OrderStatus::Done, now))
        },
    }
}

/// What the fill of the sell order `order_id` by `filler` is decided as.
pub open spec fn fill_sell_outcome(pre: LedgerView, filler: i32, order_id: i32) -> Result<
    FillSell,
    SettlementError,
> {
    match pre.order(order_id) {
        None => Err(SettlementError::OrderNotFound),
        Some(o) => fill_sell_plan(
            Some(o),
            filler,
            pre.balance(filler),
            pre.balance(o.user_id),
            pre.holding(filler, o.asset_id),
            rate_of(COMMISSION_ORDER_SELL),
        ),
    }
}

/// The books after the fill of a sell order, or after its refusal.
pub open spec fn after_fill_sell(pre: LedgerView, filler: i32, order_id: i32, now: i64) -> LedgerView {
    match fill_sell_outcome(pre, filler, order_id) {
        Err(_) => pre,
        Ok(p) => {
            let o = pre.order(order_id).unwrap();
            with_fill_trades(
                pre.with_balance(filler, p.filler_balance).with_balance(
                    o.user_id,
                    p.owner_balance,
                ).with_holding(filler, o.asset_id, p.filler_holding),
                o,
                filler,
                OrderType::Buy,
                OrderType::Sell,
                now,
            ).with_order_at(order_id - 1, closed(o, OrderStatus::Done, now))
        },
    }
}

/// What the cancellation of the order `order_id` by `user` is decided as.
pub open spec fn cancel_outcome(pre: LedgerView, user: i32, order_id: i32) -> Result<
    Amount,
    SettlementError,
> {
    match pre.order(order_id) {
        None => Err(SettlementError::OrderNotFound),
        Some(o) => cancel_plan(
            Some(o),
            user,
            pre.balance(o.user_id),
            pre.holding(o.user_id, o.asset_id),
        ),
    }
}

/// The books after a cancellation, or after its refusal.
pub open spec fn after_cancel(pre: LedgerView, user: i32, order_id: i32, now: i64) -> LedgerView {
    match cancel_outcome(pre, user, order_id) {
        Err(_) => pre,
        Ok(refunded) => {
            let o = pre.order(order_id).unwrap();
            let back = match o.order_type {
                OrderType::Buy => pre.with_balance(o.user_id, refunded),
                OrderType::Sell => pre.with_holding(o.user_id, o.asset_id, refunded),
            };
            back.with_order_at(order_id - 1, closed(o, OrderStatus::Cancel, now))
        },
    }
}

/// A refused operation leaves the books as they were, whatever the operation.
pub proof fn lemma_refusal_changes_nothing(
    pre: LedgerView,
    user: i32,
    asset: i32,
    side: OrderType,
    price: Amount,
    amount: Amount,
    order_id: i32,
    now: i64,
)
    ensures
        forall|e: SettlementError|
            after_market_buy(pre, Err(e), user, asset, Some(price), now) == pre
                && after_market_sell(pre, Err(e), user, asset, Some(price), amount, now) == pre,
        create_plan(pre, user, asset, side, price, amount) is Err ==> after_create(
            pre,
            user,
            asset,
            side,
            price,
            amount,
            now,
        ) == pre,
        fill_buy_outcome(pre, user, order_id) is Err ==> after_fill_buy(pre, user, order_id, now)
            == pre,
        fill_sell_outcome(pre, user, order_id) is Err ==> after_fill_sell(
            pre,
            user,
            order_id,
            now,
        ) == pre,
        cancel_outcome(pre, user, order_id) is Err ==> after_cancel(pre, user, order_id, now)
            == pre,
{
}

/// An order that is done or cancelled can be neither filled nor cancelled:
/// each attempt, by whomever, is refused as an invalid state and changes
/// nothing.
pub proof fn lemma_terminal_order_is_final(pre: LedgerView, user: i32, order_id: i32, now: i64)
    requires
        pre.order(order_id) is Some,
        pre.order(order_id).unwrap().status.is_terminal(),
    ensures
        fill_buy_outcome(pre, user, order_id) == Err::<FillBuy, SettlementError>(
            SettlementError::InvalidState,
        ),
        fill_sell_outcome(pre, user, order_id) == Err::<FillSell, SettlementError>(
            SettlementError::InvalidState,
        ),
        cancel_outcome(pre, user, order_id) == Err::<Amount, SettlementError>(
            SettlementError::InvalidState,
        ),
        after_fill_buy(pre, user, order_id, now) == pre,
        after_fill_sell(pre, user, order_id, now) == pre,
        after_cancel(pre, user, order_id, now) == pre,
{
}

/// Whatever a fill or a cancellation does, every order that had reached a
/// final status before is the same afterwards, and no order is lost.
pub proof fn lemma_terminal_orders_stay(pre: LedgerView, user: i32, order_id: i32, now: i64, i: int)
    requires
        0 <= i < pre.orders.len(),
        pre.orders[i].status.is_terminal(),
    ensures
        after_fill_buy(pre, user, order_id, now).orders.len() == pre.orders.len(),
        after_fill_sell(pre, user, order_id, now).orders.len() == pre.orders.len(),
        after_cancel(pre, user, order_id, now).orders.len() == pre.orders.len(),
        after_fill_buy(pre, user, order_id, now).orders[i] == pre.orders[i],
        after_fill_sell(pre, user, order_id, now).orders[i] == pre.orders[i],
        after_cancel(pre, user, order_id, now).orders[i] == pre.orders[i],
{
}

/// Applying one more write after a run of writes.
proof fn lemma_applied_push(pre: LedgerView, ws: Seq<Write>, w: Write)
    ensures
        applied_all(pre, ws.push(w)) == applied(applied_all(pre, ws), w),
{
    assert(ws.push(w).drop_last() =~= ws);
}

/// The writes of a run of two, three and six writes, one after another.
proof fn lemma_applied_runs(pre: LedgerView, ws: Seq<Write>)
    ensures
        ws.len() == 2 ==> applied_all(pre, ws) == applied(applied(pre, ws[0]), ws[1]),
        ws.len() == 3 ==> applied_all(pre, ws) == applied(
            applied(applied(pre, ws[0]), ws[1]),
            ws[2],
        ),
        ws.len() == 6 ==> applied_all(pre, ws) == applied(
            applied(
                applied(applied(applied(applied(pre, ws[0]), ws[1]), ws[2]), ws[3]),
                ws[4],
            ),
            ws[5],
        ),
{
    let none = Seq::<Write>::empty();
    assert(applied_all(pre, none) == pre);
    if ws.len() >= 2 {
        lemma_applied_push(pre, none, ws[0]);
        lemma_applied_push(pre, none.push(ws[0]), ws[1]);
        let two = none.push(ws[0]).push(ws[1]);
        if ws.len() == 2 {
            assert(ws =~= two);
        }
        if ws.len() >= 3 {
            lemma_applied_push(pre, two, ws[2]);
            let three = two.push(ws[2]);
            if ws.len() == 3 {
                assert(ws =~= three);
            }
            if ws.len() == 6 {
                lemma_applied_push(pre, three, ws[3]);
                lemma_applied_push(pre, three.push(ws[3]), ws[4]);
                lemma_applied_push(pre, three.push(ws[3]).push(ws[4]), ws[5]);
                assert(ws =~= three.push(ws[3]).push(ws[4]).push(ws[5]));
            }
        }
    }
}

/// The writes of a market order, applied in their order, make of the books
/// what the market order makes of them.
pub proof fn lemma_market_writes_settle(
    pre: LedgerView,
    buy: MarketBuy,
    sell: MarketSell,
    user: i32,
    asset: i32,
    price: Amount,
    amount: Amount,
    now: i64,
)
    ensures
        applied_all(pre, market_buy_steps(buy, user, asset, price, now)) == after_market_buy(
            pre,
            Ok(buy),
            user,
            asset,
            Some(price),
            now,
        ),
        applied_all(pre, market_sell_steps(sell, user, asset, price, amount, now))
            == after_market_sell(pre, Ok(sell), user, asset, Some(price), amount, now),
{
    lemma_applied_runs(pre, market_buy_steps(buy, user, asset, price, now));
    lemma_applied_runs(pre, market_sell_steps(sell, user, asset, price, amount, now));
}

/// The writes of placing an order, applied in their order, make of the
/// books what `order_create` makes of them.
pub proof fn lemma_create_writes_settle(
    pre: LedgerView,
    user: i32,
    asset: i32,
    side: OrderType,
    price: Amount,
    amount: Amount,
    now: i64,
)
    requires
        create_plan(pre, user, asset, side, price, amount) is Ok,
    ensures
        applied_all(
            pre,
            order_create_steps(
                create_plan(pre, user, asset, side, price, amount).unwrap(),
                user,
                asset,
                side,
                price,
                amount,
                now,
            ),
        ) == after_create(pre, user, asset, side, price, amount, now),
{
    let left = create_plan(pre, user, asset, side, price, amount).unwrap();
    lemma_applied_runs(pre, order_create_steps(left, user, asset, side, price, amount, now));
}

/// The writes of a fill, applied in their order, make of the books what
/// the fill makes of them.
pub proof fn lemma_fill_writes_settle(pre: LedgerView, filler: i32, order: Order, now: i64)
    requires
        pre.order(order.id) == Some(order),
    ensures
        fill_buy_outcome(pre, filler, order.id) matches Ok(plan) ==> applied_all(
            pre,
            fill_buy_steps(plan, order, filler, now),
        ) == after_fill_buy(pre, filler, order.id, now),
        fill_sell_outcome(pre, filler, order.id) matches Ok(plan) ==> applied_all(
            pre,
            fill_sell_steps(plan, order, filler, now),
        ) == after_fill_sell(pre, filler, order.id, now),
{
    match fill_buy_outcome(pre, filler, order.id) {
        Ok(plan) => {
            lemma_applied_runs(pre, fill_buy_steps(plan, order, filler, now));
        },
        Err(_) => {},
    }
    match fill_sell_outcome(pre, filler, order.id) {
        Ok(plan) => {
            lemma_applied_runs(pre, fill_sell_steps(plan, order, filler, now));
        },
        Err(_) => {},
    }
}

/// The writes of a cancellation, applied in their order, make of the books
/// what `order_cancel` makes of them.
pub proof fn lemma_cancel_writes_settle(pre: LedgerView, user: i32, order: Order, now: i64)
    requires
        pre.order(order.id) == Some(order),
    ensures
        cancel_outcome(pre, user, order.id) matches Ok(refunded) ==> applied_all(
            pre,
            cancel_steps(refunded, order, now),
        ) == after_cancel(pre, user, order.id, now),
{
    match cancel_outcome(pre, user, order.id) {
        Ok(refunded) => {
            lemma_applied_runs(pre, cancel_steps(refunded, order, now));
        },
        Err(_) => {},
    }
}

/// Buys `amount` units of `asset_id` for `user_id` at the cached price.
/// The buyer pays the price of all units and receives them less commission.
pub fn market_buy(
    ledger: &mut Ledger,
    cache: &PriceCache,
    user_id: i32,
    asset_id: i32,
    amount: Amount,
    now: i64,
) -> (r: Result<MarketBuy, SettlementError>)
    requires
        old(ledger).wf(),
    ensures
        final(ledger).wf(),
        r == market_buy_plan(
            cached_price(cache@, asset_id),
            old(ledger)@.balance(user_id),
            old(ledger)@.holding(user_id, asset_id),
            amount,
            rate_of(COMMISSION_MARKET_BUY),
        ),
        final(ledger)@ == after_market_buy(
            old(ledger)@,
            r,
            user_id,
            asset_id,
            cached_price(cache@, asset_id),
            now,
        ),
{
    let price = cache.price_of(asset_id);
    let plan = plan_market_buy(
        price,
        ledger.balance_of(user_id),
        ledger.holding_of(user_id, asset_id),
        amount,
        Amount::from_millis(COMMISSION_MARKET_BUY),
    );
    match plan {
        Err(e) => Err(e),
        Ok(p) => {
            ledger.set_balance(user_id, p.balance);
            ledger.set_holding(user_id, asset_id, p.holding);
            match price {
                Some(paid) => {
                    ledger.push_trade(
                        Trade {
                            user_id: user_id,
                            asset_id: asset_id,
                            trade_type: OrderType::Buy,
                            price: paid,
                            amount: p.received,
                            created_at: now,
                        },
                    );
                },
                None => {},
            }
            Ok(p)
        },
    }
}

/// Sells `amount` units of `asset_id` for `user_id` at the cached price.
/// The holding gives up all units and the seller is paid less commission.
pub fn market_sell(
    ledger: &mut Ledger,
    cache: &PriceCache,
    user_id: i32,
    asset_id: i32,
    amount: Amount,
    now: i64,
) -> (r: Result<MarketSell, SettlementError>)
    requires
        old(ledger).wf(),
    ensures
        final(ledger).wf(),
        r == market_sell_plan(
            cached_price(cache@, asset_id),
            old(ledger)@.balance(user_id),
            old(ledger)@.holding(user_id, asset_id),
            amount,
            rate_of(COMMISSION_MARKET_SELL),
        ),
        final(ledger)@ == after_market_sell(
            old(ledger)@,
            r,
            user_id,
            asset_id,
            cached_price(cache@, asset_id),
            amount,
            now,
        ),
{
    let price = cache.price_of(asset_id);
    let plan = plan_market_sell(
        price,
        ledger.balance_of(user_id),
        ledger.holding_of(user_id, asset_id),
        amount,
        Amount::from_millis(COMMISSION_MARKET_SELL),
    );
    match plan {
        Err(e) => Err(e),
        Ok(p) => {
            ledger.set_holding(user_id, asset_id, p.holding);
            ledger.set_balance(user_id, p.balance);
            match price {
                Some(paid) => {
                    ledger.push_trade(
                        Trade {
                            user_id: user_id,
                            asset_id: asset_id,
                            trade_type: OrderType::Sell,
                            price: paid,
                            amount: amount,
                            created_at: now,
                        },
                    );
                },
                None => {},
            }
            Ok(p)
        },
    }
}

/// Places a limit order for `user_id` and reserves what it promises: the
/// price of a buy order from the balance, the amount of a sell order from
/// the holding. Returns the id of the new order.
pub fn order_create(
    ledger: &mut Ledger,
    user_id: i32,
    asset_id: i32,
    order_type: OrderType,
    price: Amount,
    amount: Amount,
    now: i64,
) -> (r: Result<i32, SettlementError>)
    requires
        old(ledger).wf(),
    ensures
        final(ledger).wf(),
        r == match create_plan(old(ledger)@, user_id, asset_id, order_type, price, amount) {
            Ok(_) => Ok((old(ledger)@.orders.len() + 1) as i32),
            Err(e) => Err(e),
        },
        final(ledger)@ == after_create(
            old(ledger)@,
            user_id,
            asset_id,
            order_type,
            price,
            amount,
            now,
        ),
{
    let reserve = match order_type {
        OrderType::Buy => plan_create_buy(ledger.balance_of(user_id), price),
        OrderType::Sell => plan_create_sell(ledger.holding_of(user_id, asset_id), amount),
    };
    let left = match reserve {
        Ok(l) => l,
        Err(e) => { return Err(e); },
    };
    proof {
        ledger.lemma_order_ids();
    }
    let count = ledger.order_count();
    if count >= 0x7fff_fffe {
        return Err(SettlementError::Overflow);
    }
    let id: i32 = (count + 1) as i32;
    match order_type {
        OrderType::Buy => ledger.set_balance(user_id, left),
        OrderType::Sell => ledger.set_holding(user_id, asset_id, left),
    }
    ledger.push_order(
        Order {
            id: id,
            user_id: user_id,
            asset_id: asset_id,
            order_type: order_type,
            price: price,
            amount: amount,
            status: OrderStatus::Pending,
            created_at: now,
            updated_at: now,
        },
    );
    Ok(id)
}

/// Fills the pending buy order `order_id`: `filler_id` sells the order's
/// amount to its owner for the order's price.
pub fn order_buy(ledger: &mut Ledger, filler_id: i32, order_id: i32, now: i64) -> (r: Result<
    FillBuy,
    SettlementError,
>)
    requires
        old(ledger).wf(),
    ensures
        final(ledger).wf(),
        r == fill_buy_outcome(old(ledger)@, filler_id, order_id),
        final(ledger)@ == after_fill_buy(old(ledger)@, filler_id, order_id, now),
{
    let order = match ledger.order(order_id) {
        Some(o) => o,
        None => { return Err(SettlementError::OrderNotFound); },
    };
    proof {
        ledger.lemma_order_ids();
        assert(order == ledger@.orders[order_id - 1]);
        assert(order.id == order_id);
    }
    let plan = plan_fill_buy(
        Some(order),
        filler_id,
        ledger.holding_of(filler_id, order.asset_id),
        ledger.balance_of(filler_id),
        ledger.holding_of(order.user_id, order.asset_id),
        Amount::from_millis(COMMISSION_ORDER_BUY),
    );
    match plan {
        Err(e) => Err(e),
        Ok(p) => {
            ledger.set_holding(filler_id, order.asset_id, p.filler_holding);
            ledger.set_balance(filler_id, p.filler_balance);
            ledger.set_holding(order.user_id, order.asset_id, p.owner_holding);
            record_fill(ledger, &order, filler_id, OrderType::Sell, OrderType::Buy, now);
            Ok(p)
        },
    }
}

/// Fills the pending sell order `order_id`: `filler_id` buys the order's
/// amount from its owner for the order's price.
pub fn order_sell(ledger: &mut Ledger, filler_id: i32, order_id: i32, now: i64) -> (r: Result<
    FillSell,
    SettlementError,
>)
    requires
        old(ledger).wf(),
    ensures
        final(ledger).wf(),
        r == fill_sell_outcome(old(ledger)@, filler_id, order_id),
        final(ledger)@ == after_fill_sell(old(ledger)@, filler_id, order_id, now),
{
    let order = match ledger.order(order_id) {
        Some(o) => o,
        None => { return Err(SettlementError::OrderNotFound); },
    };
    proof {
        ledger.lemma_order_ids();
        assert(order == ledger@.orders[order_id - 1]);
        assert(order.id == order_id);
    }
    let plan = plan_fill_sell(
        Some(order),
        filler_id,
        ledger.balance_of(filler_id),
        ledger.balance_of(order.user_id),
        ledger.holding_of(filler_id, order.asset_id),
        Amount::from_millis(COMMISSION_ORDER_SELL),
    );
    match plan {
        Err(e) => Err(e),
        Ok(p) => {
            ledger.set_balance(filler_id, p.filler_balance);
            ledger.set_balance(order.user_id, p.owner_balance);
            ledger.set_holding(filler_id, order.asset_id, p.filler_holding);
            record_fill(ledger, &order, filler_id, OrderType::Buy, OrderType::Sell, now);
            Ok(p)
        },
    }
}

/// Writes the two trade rows of a fill and closes the order as done.
fn record_fill(
    ledger: &mut Ledger,
    order: &Order,
    filler_id: i32,
    filler_side: OrderType,
    owner_side: OrderType,
    now: i64,
)
    requires
        old(ledger).wf(),
        old(ledger)@.order(order.id) == Some(*order),
    ensures
        final(ledger).wf(),
        final(ledger)@ == with_fill_trades(
            old(ledger)@,
            *order,
            filler_id,
            filler_side,
            owner_side,
            now,
        ).with_order_at(order.id - 1, closed(*order, OrderStatus::Done, now)),
{
    ledger.push_trade(
        Trade {
            user_id: filler_id,
            asset_id: order.asset_id,
            trade_type: filler_side,
            price: order.price,
            amount: order.amount,
            created_at: now,
        },
    );
    ledger.push_trade(
        Trade {
            user_id: order.user_id,
            asset_id: order.asset_id,
            trade_type: owner_side,
            price: order.price,
            amount: order.amount,
            created_at: now,
        },
    );
    ledger.close_order((order.id - 1) as usize, OrderStatus::Done, now);
}

/// Cancels the pending order `order_id` for its owner `user_id` and gives
/// the reserve back in full. Returns the row that took the refund: the
/// balance for a buy order, the holding for a sell order.
pub fn order_cancel(ledger: &mut Ledger, user_id: i32, order_id: i32, now: i64) -> (r: Result<
    Amount,
    SettlementError,
>)
    requires
        old(ledger).wf(),
    ensures
        final(ledger).wf(),
        r == cancel_outcome(old(ledger)@, user_id, order_id),
        final(ledger)@ == after_cancel(old(ledger)@, user_id, order_id, now),
{
    let order = match ledger.order(order_id) {
        Some(o) => o,
        None => { return Err(SettlementError::OrderNotFound); },
    };
    let plan = plan_cancel(
        Some(order),
        user_id,
        ledger.balance_of(order.user_id),
        ledger.holding_of(order.user_id, order.asset_id),
    );
    match plan {
        Err(e) => Err(e),
        Ok(refunded) => {
            match order.order_type {
                OrderType::Buy => ledger.set_balance(order.user_id, refunded),
                OrderType::Sell => ledger.set_holding(order.user_id, order.asset_id, refunded),
            }
            ledger.close_order((order_id - 1) as usize, OrderStatus::Cancel, now);
            Ok(refunded)
        },
    }
}

} // verus!
