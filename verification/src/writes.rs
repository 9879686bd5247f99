//! The writes of each settlement, in the order in which a store is to
//! apply them: what is taken first, what is given second, the trade ledger
//! after that, and the status of the order last. A store that fails between
//! two writes has then taken without giving, never given twice.

use crate::fixed::Amount;
use crate::ledger::order_index;
use crate::ledger::LedgerView;
use crate::orders::Order;
use crate::orders::OrderStatus;
use crate::orders::OrderType;
use crate::orders::Trade;
use crate::settlement::FillBuy;
use crate::settlement::FillSell;
use crate::settlement::MarketBuy;
use crate::settlement::MarketSell;
use vstd::prelude::*;

verus! {

/// One write to the store.
#[derive(Clone, Copy, Debug, PartialEq, Eq, Structural)]
pub enum Write {
    /// Sets the cash balance of a user.
    Balance { user_id: i32, amount: Amount },
    /// Sets the holding of a user in an asset, creating the row if needed.
    Holding { user_id: i32, asset_id: i32, amount: Amount },
    /// Appends a row to the trade ledger.
    Trade { trade: Trade },
    /// Inserts a pending order; the store gives it the next id.
    NewOrder {
        user_id: i32,
        asset_id: i32,
        order_type: OrderType,
        price: Amount,
        amount: Amount,
        now: i64,
    },
    /// Moves an order to a final status and stamps it.
    CloseOrder { order_id: i32, status: OrderStatus, now: i64 },
}

/// The books after one write.
pub open spec fn applied(pre: LedgerView, w: Write) -> LedgerView {
    match w {
        Write::Balance { user_id, amount } => pre.with_balance(user_id, amount),
        Write::Holding { user_id, asset_id, amount } => pre.with_holding(user_id, asset_id, amount),
        Write::Trade { trade } => pre.with_trade(trade),
        Write::NewOrder { user_id, asset_id, order_type, price, amount, now } => pre.with_order(
            Order {
                id: (pre.orders.len() + 1) as i32,
                user_id: user_id,
                asset_id: asset_id,
                order_type: order_type,
                price: price,
                amount: amount,
                status: OrderStatus::Pending,
                created_at: now,
                updated_at: now,
            },
        ),
        Write::CloseOrder { order_id, status, now } => match order_index(pre.orders, order_id) {
            Some(i) => pre.with_order_at(
                i,
                Order { status: status, updated_at: now, ..pre.orders[i] },
            ),
            None => pre,
        },
    }
}

/// The books after the writes of `ws`, applied in their order.
pub open spec fn applied_all(pre: LedgerView, ws: Seq<Write>) -> LedgerView
    decreases ws.len(),
{
    if ws.len() == 0 {
        pre
    } else {
        applied(applied_all(pre, ws.drop_last()), ws.last())
    }
}

/// The trade row of one side of a settlement.
pub open spec fn trade_of(
    user: i32,
    asset: i32,
    side: OrderType,
    price: Amount,
    amount: Amount,
    now: i64,
) -> Write {
    Write::Trade {
        trade: Trade {
            user_id: user,
            asset_id: asset,
            trade_type: side,
            price: price,
            amount: amount,
            created_at: now,
        },
    }
}

/// The writes of a market buy: the cash is taken, the units are given, the
/// trade is recorded.
pub open spec fn market_buy_steps(plan: MarketBuy, user: i32, asset: i32, price: Amount, now: i64)
    -> Seq<Write> {
    seq![
        Write::Balance { user_id: user, amount: plan.balance },
        Write::Holding { user_id: user, asset_id: asset, amount: plan.holding },
        trade_of(user, asset, OrderType::Buy, price, plan.received, now),
    ]
}

/// The writes of a market sell of `amount` units: the units are taken, the
/// cash is given, the trade is recorded.
pub open spec fn market_sell_steps(
    plan: MarketSell,
    user: i32,
    asset: i32,
    price: Amount,
    amount: Amount,
    now: i64,
) -> Seq<Write> {
    seq![
        Write::Holding { user_id: user, asset_id: asset, amount: plan.holding },
        Write::Balance { user_id: user, amount: plan.balance },
        trade_of(user, asset, OrderType::Sell, price, amount, now),
    ]
}

/// The writes of placing an order that leaves `left` in the reserved row:
/// the reserve is taken, then the order is inserted.
pub open spec fn order_create_steps(
    left: Amount,
    user: i32,
    asset: i32,
    side: OrderType,
    price: Amount,
    amount: Amount,
    now: i64,
) -> Seq<Write> {
    seq![
        match side {
            OrderType::Buy => Write::Balance { user_id: user, amount: left },
            OrderType::Sell => Write::Holding { user_id: user, asset_id: asset, amount: left },
        },
        Write::NewOrder {
            user_id: user,
            asset_id: asset,
            order_type: side,
            price: price,
            amount: amount,
            now: now,
        },
    ]
}

/// The writes of the fill of a buy order: the filler's units are taken,
/// the filler is paid, the owner is given the units, the two trades are
/// recorded, and the order is closed.
pub open spec fn fill_buy_steps(plan: FillBuy, order: Order, filler: i32, now: i64) -> Seq<Write> {
    seq![
        Write::Holding { user_id: filler, asset_id: order.asset_id, amount: plan.filler_holding },
        Write::Balance { user_id: filler, amount: plan.filler_balance },
        Write::Holding {
            user_id: order.user_id,
            asset_id: order.asset_id,
            amount: plan.owner_holding,
        },
        trade_of(filler, order.asset_id, OrderType::Sell, order.price, order.amount, now),
        trade_of(order.user_id, order.asset_id, OrderType::Buy, order.price, order.amount, now),
        Write::CloseOrder { order_id: order.id, status: OrderStatus::Done, now: now },
    ]
}

/// The writes of the fill of a sell order: the filler's cash is taken, the
/// owner is paid, the filler is given the units, the two trades are
/// recorded, and the order is closed.
pub open spec fn fill_sell_steps(plan: FillSell, order: Order, filler: i32, now: i64) -> Seq<
    Write,
> {
    seq![
        Write::Balance { user_id: filler, amount: plan.filler_balance },
        Write::Balance { user_id: order.user_id, amount: plan.owner_balance },
        Write::Holding { user_id: filler, asset_id: order.asset_id, amount: plan.filler_holding },
        trade_of(filler, order.asset_id, OrderType::Buy, order.price, order.amount, now),
        trade_of(order.user_id, order.asset_id, OrderType::Sell, order.price, order.amount, now),
        Write::CloseOrder { order_id: order.id, status: OrderStatus::Done, now: now },
    ]
}

/// The writes of a cancellation that leaves `refunded` in the row that
/// held the reserve: the reserve is given back, then the order is closed.
pub open spec fn cancel_steps(refunded: Amount, order: Order, now: i64) -> Seq<Write> {
    seq![
        match order.order_type {
            OrderType::Buy => Write::Balance { user_id: order.user_id, amount: refunded },
            OrderType::Sell => Write::Holding {
                user_id: order.user_id,
                asset_id: order.asset_id,
                amount: refunded,
            },
        },
        Write::CloseOrder { order_id: order.id, status: OrderStatus::Cancel, now: now },
    ]
}

fn trade_write(user: i32, asset: i32, side: OrderType, price: Amount, amount: Amount, now: i64) -> (r:
    Write)
    ensures
        r == trade_of(user, asset, side, price, amount, now),
{
    Write::Trade {
        trade: Trade {
            user_id: user,
            asset_id: asset,
            trade_type: side,
            price: price,
            amount: amount,
            created_at: now,
        },
    }
}

/// The writes of a market buy, in the order in which to apply them.
pub fn market_buy_writes(plan: &MarketBuy, user: i32, asset: i32, price: Amount, now: i64) -> (r:
    Vec<Write>)
    ensures
        r@ == market_buy_steps(*plan, user, asset, price, now),
{
    let mut out: Vec<Write> = Vec::new();
    out.push(Write::Balance { user_id: user, amount: plan.balance });
    out.push(Write::Holding { user_id: user, asset_id: asset, amount: plan.holding });
    out.push(trade_write(user, asset, OrderType::Buy, price, plan.received, now));
    assert(out@ =~= market_buy_steps(*plan, user, asset, price, now));
    out
}

/// The writes of a market sell, in the order in which to apply them.
pub fn market_sell_writes(
    plan: &MarketSell,
    user: i32,
    asset: i32,
    price: Amount,
    amount: Amount,
    now: i64,
) -> (r: Vec<Write>)
    ensures
        r@ == market_sell_steps(*plan, user, asset, price, amount, now),
{
    let mut out: Vec<Write> = Vec::new();
    out.push(Write::Holding { user_id: user, asset_id: asset, amount: plan.holding });
    out.push(Write::Balance { user_id: user, amount: plan.balance });
    out.push(trade_write(user, asset, OrderType::Sell, price, amount, now));
    assert(out@ =~= market_sell_steps(*plan, user, asset, price, amount, now));
    out
}

/// The writes of placing an order, in the order in which to apply them.
pub fn order_create_writes(
    left: Amount,
    user: i32,
    asset: i32,
    side: OrderType,
    price: Amount,
    amount: Amount,
    now: i64,
) -> (r: Vec<Write>)
    ensures
        r@ == order_create_steps(left, user, asset, side, price, amount, now),
{
    let mut out: Vec<Write> = Vec::new();
    match side {
        OrderType::Buy => out.push(Write::Balance { user_id: user, amount: left }),
        OrderType::Sell => out.push(
            Write::Holding { user_id: user, asset_id: asset, amount: left },
        ),
    }
    out.push(
        Write::NewOrder {
            user_id: user,
            asset_id: asset,
            order_type: side,
            price: price,
            amount: amount,
            now: now,
        },
    );
    assert(out@ =~= order_create_steps(left, user, asset, side, price, amount, now));
    out
}

/// The writes of the fill of a buy order, in the order in which to apply them.
pub fn fill_buy_writes(plan: &FillBuy, order: &Order, filler: i32, now: i64) -> (r: Vec<Write>)
    ensures
        r@ == fill_buy_steps(*plan, *order, filler, now),
{
    let mut out: Vec<Write> = Vec::new();
    out.push(
        Write::Holding { user_id: filler, asset_id: order.asset_id, amount: plan.filler_holding },
    );
    out.push(Write::Balance { user_id: filler, amount: plan.filler_balance });
    out.push(
        Write::Holding {
            user_id: order.user_id,
            asset_id: order.asset_id,
            amount: plan.owner_holding,
        },
    );
    out.push(trade_write(filler, order.asset_id, OrderType::Sell, order.price, order.amount, now));
    out.push(
        trade_write(order.user_id, order.asset_id, OrderType::Buy, order.price, order.amount, now),
    );
    out.push(Write::CloseOrder { order_id: order.id, status: OrderStatus::Done, now: now });
    assert(out@ =~= fill_buy_steps(*plan, *order, filler, now));
    out
}

/// The writes of the fill of a sell order, in the order in which to apply them.
pub fn fill_sell_writes(plan: &FillSell, order: &Order, filler: i32, now: i64) -> (r: Vec<Write>)
    ensures
        r@ == fill_sell_steps(*plan, *order, filler, now),
{
    let mut out: Vec<Write> = Vec::new();
    out.push(Write::Balance { user_id: filler, amount: plan.filler_balance });
    out.push(Write::Balance { user_id: order.user_id, amount: plan.owner_balance });
    out.push(
        Write::Holding { user_id: filler, asset_id: order.asset_id, amount: plan.filler_holding },
    );
    out.push(trade_write(filler, order.asset_id, OrderType::Buy, order.price, order.amount, now));
    out.push(
        trade_write(order.user_id, order.asset_id, OrderType::Sell, order.price, order.amount, now),
    );
    out.push(Write::CloseOrder { order_id: order.id, status: OrderStatus::Done, now: now });
    assert(out@ =~= fill_sell_steps(*plan, *order, filler, now));
    out
}

/// The writes of a cancellation, in the order in which to apply them.
pub fn cancel_writes(refunded: Amount, order: &Order, now: i64) -> (r: Vec<Write>)
    ensures
        r@ == cancel_steps(refunded, *order, now),
{
    let mut out: Vec<Write> = Vec::new();
    match order.order_type {
        OrderType::Buy => out.push(Write::Balance { user_id: order.user_id, amount: refunded }),
        OrderType::Sell => out.push(
            Write::Holding {
                user_id: order.user_id,
                asset_id: order.asset_id,
                amount: refunded,
            },
        ),
    }
    out.push(Write::CloseOrder { order_id: order.id, status: OrderStatus::Cancel, now: now });
    assert(out@ =~= cancel_steps(refunded, *order, now));
    out
}

} // verus!
