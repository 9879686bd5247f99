//! Settlement: what a market order, the placing of a limit order, its fill
//! by a counter-party and its cancellation do to balances and holdings.
//!
//! Each operation is decided by a function from the rows it reads to the
//! rows it writes, or to the failure that refuses it.

use crate::commission::commission_millis;
use crate::commission::lemma_commission_bounded;
use crate::commission::net_millis;
use crate::commission::take_commission;
use crate::commission::valid_rate;
use crate::fixed::product_millis;
use crate::fixed::Amount;
use crate::orders::Order;
use crate::orders::OrderStatus;
use crate::orders::OrderType;
use crate::orders::SettlementError;
use vstd::prelude::*;

verus! {

/// Commission rate of a market buy, in thousandths.
pub const COMMISSION_MARKET_BUY: u64 = 100;

/// Commission rate of a market sell, in thousandths.
pub const COMMISSION_MARKET_SELL: u64 = 100;

/// Commission rate on the fill of a buy order, in thousandths.
pub const COMMISSION_ORDER_BUY: u64 = 100;

/// Commission rate on the fill of a sell order, in thousandths.
pub const COMMISSION_ORDER_SELL: u64 = 100;

/// The quantity of `v` thousandths.
pub open spec fn amount_of(v: int) -> Amount {
    Amount { millis: v as u64 }
}

/// The thousandths of a holding that may not exist yet: a missing row
/// counts as nothing held.
pub open spec fn held(h: Option<Amount>) -> int {
    match h {
        Some(a) => a.millis as int,
        None => 0,
    }
}

/// What a market buy writes.
#[derive(Clone, Copy, Debug, PartialEq, Eq, Structural)]
pub struct MarketBuy {
    /// What the buyer pays.
    pub cost: Amount,
    /// The units that the buyer receives.
    pub received: Amount,
    /// The units withheld.
    pub commission: Amount,
    /// The buyer's balance afterwards.
    pub balance: Amount,
    /// The buyer's holding afterwards.
    pub holding: Amount,
}

/// What a market sell writes.
#[derive(Clone, Copy, Debug, PartialEq, Eq, Structural)]
pub struct MarketSell {
    /// The price of the units sold.
    pub proceeds: Amount,
    /// The cash that the seller receives.
    pub received: Amount,
    /// The cash withheld.
    pub commission: Amount,
    /// The seller's balance afterwards.
    pub balance: Amount,
    /// The seller's holding afterwards.
    pub holding: Amount,
}

/// What the fill of a buy order writes. The filler sells to the order's owner.
#[derive(Clone, Copy, Debug, PartialEq, Eq, Structural)]
pub struct FillBuy {
    /// The filler's holding afterwards.
    pub filler_holding: Amount,
    /// The filler's balance afterwards.
    pub filler_balance: Amount,
    /// The owner's holding afterwards.
    pub owner_holding: Amount,
    /// The units that the owner receives.
    pub credited: Amount,
    /// The units withheld.
    pub commission: Amount,
}

/// What the fill of a sell order writes. The filler buys from the order's owner.
#[derive(Clone, Copy, Debug, PartialEq, Eq, Structural)]
pub struct FillSell {
    /// The filler's balance afterwards.
    pub filler_balance: Amount,
    /// The owner's balance afterwards.
    pub owner_balance: Amount,
    /// The filler's holding afterwards.
    pub filler_holding: Amount,
    /// The cash that the owner receives.
    pub credited: Amount,
    /// The cash withheld.
    pub commission: Amount,
}

/// A market buy of `amount` units at `price`: the buyer pays the rounded
/// product in full and receives the units less commission.
pub open spec fn market_buy_plan(
    price: Option<Amount>,
    balance: Option<Amount>,
    holding: Option<Amount>,
    amount: Amount,
    rate: Amount,
) -> Result<MarketBuy, SettlementError> {
    if price is None {
        Err(SettlementError::PriceUnavailable)
    } else if balance is None {
        Err(SettlementError::UserNotFound)
    } else {
        let cost = product_millis(price.unwrap().millis as int, amount.millis as int);
        let net = net_millis(amount.millis as int, rate.millis as int);
        if balance.unwrap().millis < cost {
            Err(SettlementError::InsufficientFunds)
        } else if held(holding) + net > u64::MAX {
            Err(SettlementError::Overflow)
        } else {
            Ok(
                MarketBuy {
                    cost: amount_of(cost),
                    received: amount_of(net),
                    commission: amount_of(
                        commission_millis(amount.millis as int, rate.millis as int),
                    ),
                    balance: amount_of(balance.unwrap().millis - cost),
                    holding: amount_of(held(holding) + net),
                },
            )
        }
    }
}

/// A market sell of `amount` units at `price`: the holding gives up the
/// units in full and the seller receives the rounded product less commission.
pub open spec fn market_sell_plan(
    price: Option<Amount>,
    balance: Option<Amount>,
    holding: Option<Amount>,
    amount: Amount,
    rate: Amount,
) -> Result<MarketSell, SettlementError> {
    if price is None {
        Err(SettlementError::PriceUnavailable)
    } else if holding is None {
        Err(SettlementError::HoldingNotFound)
    } else if balance is None {
        Err(SettlementError::UserNotFound)
    } else if holding.unwrap().millis < amount.millis {
        Err(SettlementError::InsufficientHoldings)
    } else {
        let proceeds = product_millis(price.unwrap().millis as int, amount.millis as int);
        let net = net_millis(proceeds, rate.millis as int);
        if proceeds > u64::MAX || balance.unwrap().millis + net > u64::MAX {
            Err(SettlementError::Overflow)
        } else {
            Ok(
                MarketSell {
                    proceeds: amount_of(proceeds),
                    received: amount_of(net),
                    commission: amount_of(commission_millis(proceeds, rate.millis as int)),
                    balance: amount_of(balance.unwrap().millis + net),
                    holding: amount_of(holding.unwrap().millis - amount.millis),
                },
            )
        }
    }
}

/// Placing a buy order reserves its price in full: the balance that is left.
pub open spec fn create_buy_plan(balance: Option<Amount>, price: Amount) -> Result<
    Amount,
    SettlementError,
> {
    match balance {
        None => Err(SettlementError::UserNotFound),
        Some(b) => if b.millis < price.millis {
            Err(SettlementError::InsufficientFunds)
        } else {
            Ok(amount_of(b.millis - price.millis))
        },
    }
}

/// Placing a sell order reserves its amount in full: the holding that is
/// left. A user without a row for the asset holds nothing to reserve.
pub open spec fn create_sell_plan(holding: Option<Amount>, amount: Amount) -> Result<
    Amount,
    SettlementError,
> {
    match holding {
        None => Err(SettlementError::InsufficientHoldings),
        Some(h) => if h.millis < amount.millis {
            Err(SettlementError::InsufficientHoldings)
        } else {
            Ok(amount_of(h.millis - amount.millis))
        },
    }
}

/// Whether `filler` may fill `order` as an order of the side `side`: the
/// order is of that side, still pending, and belongs to someone else.
pub open spec fn fillable(order: Order, filler: i32, side: OrderType) -> bool {
    &&& order.user_id != filler
    &&& order.order_type == side
    &&& order.status == OrderStatus::Pending
}

/// The fill of a buy order: the filler gives up the order's amount and is
/// paid the order's price in full; the owner receives the amount less
/// commission.
pub open spec fn fill_buy_plan(
    order: Option<Order>,
    filler: i32,
    filler_holding: Option<Amount>,
    filler_balance: Option<Amount>,
    owner_holding: Option<Amount>,
    rate: Amount,
) -> Result<FillBuy, SettlementError> {
    if order is None {
        Err(SettlementError::OrderNotFound)
    } else if !fillable(order.unwrap(), filler, OrderType::Buy) {
        Err(SettlementError::InvalidState)
    } else if filler_holding is None {
        Err(SettlementError::HoldingNotFound)
    } else if filler_holding.unwrap().millis < order.unwrap().amount.millis {
        Err(SettlementError::InsufficientHoldings)
    } else if filler_balance is None {
        Err(SettlementError::UserNotFound)
    } else {
        let o = order.unwrap();
        let net = net_millis(o.amount.millis as int, rate.millis as int);
        if filler_balance.unwrap().millis + o.price.millis > u64::MAX || held(owner_holding) + net
            > u64::MAX {
            Err(SettlementError::Overflow)
        } else {
            Ok(
                FillBuy {
                    filler_holding: amount_of(filler_holding.unwrap().millis - o.amount.millis),
                    filler_balance: amount_of(filler_balance.unwrap().millis + o.price.millis),
                    owner_holding: amount_of(held(owner_holding) + net),
                    credited: amount_of(net),
                    commission: amount_of(
                        commission_millis(o.amount.millis as int, rate.millis as int),
                    ),
                },
            )
        }
    }
}

/// The fill of a sell order: the filler pays the order's price in full and
/// receives the order's amount in full; the owner is paid the price less
/// commission.
pub open spec fn fill_sell_plan(
    order: Option<Order>,
    filler: i32,
    filler_balance: Option<Amount>,
    owner_balance: Option<Amount>,
    filler_holding: Option<Amount>,
    rate: Amount,
) -> Result<FillSell, SettlementError> {
    if order is None {
        Err(SettlementError::OrderNotFound)
    } else if !fillable(order.unwrap(), filler, OrderType::Sell) {
        Err(SettlementError::InvalidState)
    } else if filler_balance is None {
        Err(SettlementError::UserNotFound)
    } else if filler_balance.unwrap().millis < order.unwrap().price.millis {
        Err(SettlementError::InsufficientFunds)
    } else if owner_balance is None {
        Err(SettlementError::UserNotFound)
    } else {
        let o = order.unwrap();
        let net = net_millis(o.price.millis as int, rate.millis as int);
        if owner_balance.unwrap().millis + net > u64::MAX || held(filler_holding) + o.amount.millis
            > u64::MAX {
            Err(SettlementError::Overflow)
        } else {
            Ok(
                FillSell {
                    filler_balance: amount_of(filler_balance.unwrap().millis - o.price.millis),
                    owner_balance: amount_of(owner_balance.unwrap().millis + net),
                    filler_holding: amount_of(held(filler_holding) + o.amount.millis),
                    credited: amount_of(net),
                    commission: amount_of(
                        commission_millis(o.price.millis as int, rate.millis as int),
                    ),
                },
            )
        }
    }
}

/// The cancellation of an order by `user`: the reserve goes back in full.
/// The result is the owner's balance afterwards for a buy order, the
/// owner's holding afterwards for a sell order.
pub open spec fn cancel_plan(
    order: Option<Order>,
    user: i32,
    balance: Option<Amount>,
    holding: Option<Amount>,
) -> Result<Amount, SettlementError> {
    if order is None {
        Err(SettlementError::OrderNotFound)
    } else if order.unwrap().user_id != user || order.unwrap().status != OrderStatus::Pending {
        Err(SettlementError::InvalidState)
    } else {
        let o = order.unwrap();
        match o.order_type {
            OrderType::Buy => if balance is None {
                Err(SettlementError::UserNotFound)
            } else if balance.unwrap().millis + o.price.millis > u64::MAX {
                Err(SettlementError::Overflow)
            } else {
                Ok(amount_of(balance.unwrap().millis + o.price.millis))
            },
            OrderType::Sell => if holding is None {
                Err(SettlementError::HoldingNotFound)
            } else if holding.unwrap().millis + o.amount.millis > u64::MAX {
                Err(SettlementError::Overflow)
            } else {
                Ok(amount_of(holding.unwrap().millis + o.amount.millis))
            },
        }
    }
}

/// A rounded product of quantities is a quantity: it is not negative.
pub proof fn lemma_product_nonnegative(a: int, b: int)
    requires
        0 <= a,
        0 <= b,
    ensures
        0 <= product_millis(a, b),
{
    assert(0 <= a * b) by (nonlinear_arith)
        requires
            0 <= a,
            0 <= b,
    ;
}

/// A market buy conserves both legs: the balance gives exactly the cost, and
/// the units bought are the units received plus the commission.
pub proof fn lemma_market_buy_conserves(
    price: Option<Amount>,
    balance: Option<Amount>,
    holding: Option<Amount>,
    amount: Amount,
    rate: Amount,
)
    requires
        valid_rate(rate),
        market_buy_plan(price, balance, holding, amount, rate) is Ok,
    ensures
        ({
            let p = market_buy_plan(price, balance, holding, amount, rate).unwrap();
            &&& amount.millis == p.received.millis + p.commission.millis
            &&& balance.unwrap().millis == p.balance.millis + p.cost.millis
            &&& p.holding.millis == held(holding) + p.received.millis
        }),
{
    lemma_commission_bounded(amount.millis as int, rate.millis as int);
    lemma_product_nonnegative(price.unwrap().millis as int, amount.millis as int);
}

/// A market sell conserves both legs: the holding gives exactly the units
/// sold, and their price is the cash received plus the commission.
pub proof fn lemma_market_sell_conserves(
    price: Option<Amount>,
    balance: Option<Amount>,
    holding: Option<Amount>,
    amount: Amount,
    rate: Amount,
)
    requires
        valid_rate(rate),
        market_sell_plan(price, balance, holding, amount, rate) is Ok,
    ensures
        ({
            let p = market_sell_plan(price, balance, holding, amount, rate).unwrap();
            &&& p.proceeds.millis == p.received.millis + p.commission.millis
            &&& p.balance.millis == balance.unwrap().millis + p.received.millis
            &&& holding.unwrap().millis == p.holding.millis + amount.millis
        }),
{
    let proceeds = product_millis(price.unwrap().millis as int, amount.millis as int);
    lemma_product_nonnegative(price.unwrap().millis as int, amount.millis as int);
    lemma_commission_bounded(proceeds, rate.millis as int);
}

/// The fill of a buy order conserves both legs: the filler gives exactly the
/// order's amount, which is what the owner receives plus the commission, and
/// is paid exactly the order's price.
pub proof fn lemma_fill_buy_conserves(
    order: Option<Order>,
    filler: i32,
    filler_holding: Option<Amount>,
    filler_balance: Option<Amount>,
    owner_holding: Option<Amount>,
    rate: Amount,
)
    requires
        valid_rate(rate),
        fill_buy_plan(order, filler, filler_holding, filler_balance, owner_holding, rate) is Ok,
    ensures
        ({
            let p = fill_buy_plan(
                order,
                filler,
                filler_holding,
                filler_balance,
                owner_holding,
                rate,
            ).unwrap();
            let o = order.unwrap();
            &&& o.amount.millis == p.credited.millis + p.commission.millis
            &&& filler_holding.unwrap().millis == p.filler_holding.millis + o.amount.millis
            &&& p.owner_holding.millis == held(owner_holding) + p.credited.millis
            &&& p.filler_balance.millis == filler_balance.unwrap().millis + o.price.millis
        }),
{
    lemma_commission_bounded(order.unwrap().amount.millis as int, rate.millis as int);
}

/// The fill of a sell order conserves both legs: the filler pays exactly the
/// order's price, which is what the owner receives plus the commission, and
/// receives exactly the order's amount.
pub proof fn lemma_fill_sell_conserves(
    order: Option<Order>,
    filler: i32,
    filler_balance: Option<Amount>,
    owner_balance: Option<Amount>,
    filler_holding: Option<Amount>,
    rate: Amount,
)
    requires
        valid_rate(rate),
        fill_sell_plan(order, filler, filler_balance, owner_balance, filler_holding, rate) is Ok,
    ensures
        ({
            let p = fill_sell_plan(
                order,
                filler,
                filler_balance,
                owner_balance,
                filler_holding,
                rate,
            ).unwrap();
            let o = order.unwrap();
            &&& o.price.millis == p.credited.millis + p.commission.millis
            &&& filler_balance.unwrap().millis == p.filler_balance.millis + o.price.millis
            &&& p.owner_balance.millis == owner_balance.unwrap().millis + p.credited.millis
            &&& p.filler_holding.millis == held(filler_holding) + o.amount.millis
        }),
{
    lemma_commission_bounded(order.unwrap().price.millis as int, rate.millis as int);
}

/// Placing an order takes exactly its reserve, and cancelling it gives
/// exactly the reserve back: the row that was debited holds afterwards
/// what it held before the order was placed.
pub proof fn lemma_cancel_restores_reserve(
    order: Order,
    balance: Option<Amount>,
    holding: Option<Amount>,
)
    requires
        order.status == OrderStatus::Pending,
    ensures
        order.order_type == OrderType::Buy ==> (create_buy_plan(balance, order.price) matches Ok(
            left,
        ) ==> left.millis + order.price.millis == balance.unwrap().millis && cancel_plan(
            Some(order),
            order.user_id,
            Some(left),
            holding,
        ) == Ok::<Amount, SettlementError>(balance.unwrap())),
        order.order_type == OrderType::Sell ==> (create_sell_plan(holding, order.amount) matches Ok(
            left,
        ) ==> left.millis + order.amount.millis == holding.unwrap().millis && cancel_plan(
            Some(order),
            order.user_id,
            balance,
            Some(left),
        ) == Ok::<Amount, SettlementError>(holding.unwrap())),
{
}

fn held_or_zero(h: Option<Amount>) -> (r: Amount)
    ensures
        r.millis == held(h),
{
    match h {
        Some(a) => a,
        None => Amount::zero(),
    }
}

/// Decides a market buy from the rows it reads.
pub fn plan_market_buy(
    price: Option<Amount>,
    balance: Option<Amount>,
    holding: Option<Amount>,
    amount: Amount,
    rate: Amount,
) -> (r: Result<MarketBuy, SettlementError>)
    requires
        valid_rate(rate),
    ensures
        r == market_buy_plan(price, balance, holding, amount, rate),
        r matches Ok(p) ==> p.received.millis + p.commission.millis == amount.millis,
{
    let price = match price {
        Some(p) => p,
        None => { return Err(SettlementError::PriceUnavailable); },
    };
    let balance = match balance {
        Some(b) => b,
        None => { return Err(SettlementError::UserNotFound); },
    };
    let cost = match price.checked_times(amount) {
        Some(c) => c,
        None => { return Err(SettlementError::InsufficientFunds); },
    };
    let left = match balance.checked_minus(cost) {
        Some(l) => l,
        None => { return Err(SettlementError::InsufficientFunds); },
    };
    let split = take_commission(amount, rate);
    let holding = match held_or_zero(holding).checked_plus(split.amount) {
        Some(h) => h,
        None => { return Err(SettlementError::Overflow); },
    };
    Ok(
        MarketBuy {
            cost: cost,
            received: split.amount,
            commission: split.commission,
            balance: left,
            holding: holding,
        },
    )
}

/// Decides a market sell from the rows it reads.
pub fn plan_market_sell(
    price: Option<Amount>,
    balance: Option<Amount>,
    holding: Option<Amount>,
    amount: Amount,
    rate: Amount,
) -> (r: Result<MarketSell, SettlementError>)
    requires
        valid_rate(rate),
    ensures
        r == market_sell_plan(price, balance, holding, amount, rate),
        r matches Ok(p) ==> p.received.millis + p.commission.millis == p.proceeds.millis,
{
    let price = match price {
        Some(p) => p,
        None => { return Err(SettlementError::PriceUnavailable); },
    };
    let holding = match holding {
        Some(h) => h,
        None => { return Err(SettlementError::HoldingNotFound); },
    };
    let balance = match balance {
        Some(b) => b,
        None => { return Err(SettlementError::UserNotFound); },
    };
    let left = match holding.checked_minus(amount) {
        Some(l) => l,
        None => { return Err(SettlementError::InsufficientHoldings); },
    };
    let proceeds = match price.checked_times(amount) {
        Some(p) => p,
        None => { return Err(SettlementError::Overflow); },
    };
    let split = take_commission(proceeds, rate);
    let raised = match balance.checked_plus(split.amount) {
        Some(b) => b,
        None => { return Err(SettlementError::Overflow); },
    };
    Ok(
        MarketSell {
            proceeds: proceeds,
            received: split.amount,
            commission: split.commission,
            balance: raised,
            holding: left,
        },
    )
}

/// Decides the reserve of a buy order from the owner's balance.
pub fn plan_create_buy(balance: Option<Amount>, price: Amount) -> (r: Result<
    Amount,
    SettlementError,
>)
    ensures
        r == create_buy_plan(balance, price),
{
    match balance {
        None => Err(SettlementError::UserNotFound),
        Some(b) => match b.checked_minus(price) {
            Some(left) => Ok(left),
            None => Err(SettlementError::InsufficientFunds),
        },
    }
}

/// Decides the reserve of a sell order from the owner's holding.
pub fn plan_create_sell(holding: Option<Amount>, amount: Amount) -> (r: Result<
    Amount,
    SettlementError,
>)
    ensures
        r == create_sell_plan(holding, amount),
{
    match holding {
        None => Err(SettlementError::InsufficientHoldings),
        Some(h) => match h.checked_minus(amount) {
            Some(left) => Ok(left),
            None => Err(SettlementError::InsufficientHoldings),
        },
    }
}

/// Whether `filler` may fill `order` as an order of the side `side`.
pub fn can_fill(order: &Order, filler: i32, side: OrderType) -> (r: bool)
    ensures
        r == fillable(*order, filler, side),
{
    order.user_id != filler && order.order_type == side && order.status == OrderStatus::Pending
}

/// Decides the fill of a buy order from the rows it reads.
pub fn plan_fill_buy(
    order: Option<Order>,
    filler: i32,
    filler_holding: Option<Amount>,
    filler_balance: Option<Amount>,
    owner_holding: Option<Amount>,
    rate: Amount,
) -> (r: Result<FillBuy, SettlementError>)
    requires
        valid_rate(rate),
    ensures
        r == fill_buy_plan(order, filler, filler_holding, filler_balance, owner_holding, rate),
        r matches Ok(p) ==> p.credited.millis + p.commission.millis
            == order.unwrap().amount.millis,
{
    let order = match order {
        Some(o) => o,
        None => { return Err(SettlementError::OrderNotFound); },
    };
    if !can_fill(&order, filler, OrderType::Buy) {
        return Err(SettlementError::InvalidState);
    }
    let filler_holding = match filler_holding {
        Some(h) => h,
        None => { return Err(SettlementError::HoldingNotFound); },
    };
    let given = match filler_holding.checked_minus(order.amount) {
        Some(l) => l,
        None => { return Err(SettlementError::InsufficientHoldings); },
    };
    let filler_balance = match filler_balance {
        Some(b) => b,
        None => { return Err(SettlementError::UserNotFound); },
    };
    let paid = match filler_balance.checked_plus(order.price) {
        Some(b) => b,
        None => { return Err(SettlementError::Overflow); },
    };
    let split = take_commission(order.amount, rate);
    let owner = match held_or_zero(owner_holding).checked_plus(split.amount) {
        Some(h) => h,
        None => { return Err(SettlementError::Overflow); },
    };
    Ok(
        FillBuy {
            filler_holding: given,
            filler_balance: paid,
            owner_holding: owner,
            credited: split.amount,
            commission: split.commission,
        },
    )
}

/// Decides the fill of a sell order from the rows it reads.
pub fn plan_fill_sell(
    order: Option<Order>,
    filler: i32,
    filler_balance: Option<Amount>,
    owner_balance: Option<Amount>,
    filler_holding: Option<Amount>,
    rate: Amount,
) -> (r: Result<FillSell, SettlementError>)
    requires
        valid_rate(rate),
    ensures
        r == fill_sell_plan(order, filler, filler_balance, owner_balance, filler_holding, rate),
        r matches Ok(p) ==> p.credited.millis + p.commission.millis
            == order.unwrap().price.millis,
{
    let order = match order {
        Some(o) => o,
        None => { return Err(SettlementError::OrderNotFound); },
    };
    if !can_fill(&order, filler, OrderType::Sell) {
        return Err(SettlementError::InvalidState);
    }
    let filler_balance = match filler_balance {
        Some(b) => b,
        None => { return Err(SettlementError::UserNotFound); },
    };
    let paid = match filler_balance.checked_minus(order.price) {
        Some(l) => l,
        None => { return Err(SettlementError::InsufficientFunds); },
    };
    let owner_balance = match owner_balance {
        Some(b) => b,
        None => { return Err(SettlementError::UserNotFound); },
    };
    let split = take_commission(order.price, rate);
    let owner = match owner_balance.checked_plus(split.amount) {
        Some(b) => b,
        None => { return Err(SettlementError::Overflow); },
    };
    let got = match held_or_zero(filler_holding).checked_plus(order.amount) {
        Some(h) => h,
        None => { return Err(SettlementError::Overflow); },
    };
    Ok(
        FillSell {
            filler_balance: paid,
            owner_balance: owner,
            filler_holding: got,
            credited: split.amount,
            commission: split.commission,
        },
    )
}

/// Decides the cancellation of an order from the rows it reads.
pub fn plan_cancel(
    order: Option<Order>,
    user: i32,
    balance: Option<Amount>,
    holding: Option<Amount>,
) -> (r: Result<Amount, SettlementError>)
    ensures
        r == cancel_plan(order, user, balance, holding),
{
    let order = match order {
        Some(o) => o,
        None => { return Err(SettlementError::OrderNotFound); },
    };
    if order.user_id != user || order.status != OrderStatus::Pending {
        return Err(SettlementError::InvalidState);
    }
    match order.order_type {
        OrderType::Buy => {
            let balance = match balance {
                Some(b) => b,
                None => { return Err(SettlementError::UserNotFound); },
            };
            match balance.checked_plus(order.price) {
                Some(b) => Ok(b),
                None => Err(SettlementError::Overflow),
            }
        },
        OrderType::Sell => {
            let holding = match holding {
                Some(h) => h,
                None => { return Err(SettlementError::HoldingNotFound); },
            };
            match holding.checked_plus(order.amount) {
                Some(h) => Ok(h),
                None => Err(SettlementError::Overflow),
            }
        },
    }
}

} // verus!
