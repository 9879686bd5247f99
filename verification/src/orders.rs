//! Orders, trades and the failures of settlement.

use crate::fixed::Amount;
use vstd::prelude::*;

verus! {

/// The side of an order or of a trade.
#[derive(Clone, Copy, Debug, PartialEq, Eq, Structural)]
pub enum OrderType {
    Buy,
    Sell,
}

/// Where an order stands. `Done` and `Cancel` are final.
#[derive(Clone, Copy, Debug, PartialEq, Eq, Structural)]
pub enum OrderStatus {
    Pending,
    Done,
    Cancel,
}

/// A limit order. What it reserves was taken from its owner when it was
/// placed: `price` for a buy order, `amount` for a sell order.
#[derive(Clone, Copy, Debug, PartialEq, Eq, Structural)]
pub struct Order {
    pub id: i32,
    pub user_id: i32,
    pub asset_id: i32,
    pub order_type: OrderType,
    pub price: Amount,
    pub amount: Amount,
    pub status: OrderStatus,
    pub created_at: i64,
    pub updated_at: i64,
}

/// One entry of the trade ledger.
#[derive(Clone, Copy, Debug, PartialEq, Eq, Structural)]
pub struct Trade {
    pub user_id: i32,
    pub asset_id: i32,
    pub trade_type: OrderType,
    pub price: Amount,
    pub amount: Amount,
    pub created_at: i64,
}

/// Why a settlement was refused. A refused settlement changes nothing.
#[derive(Clone, Copy, Debug, PartialEq, Eq, Structural)]
pub enum SettlementError {
    /// The user has no account.
    UserNotFound,
    /// The user holds no row for the asset.
    HoldingNotFound,
    /// No order has the given id.
    OrderNotFound,
    /// The cash balance does not cover the debit.
    InsufficientFunds,
    /// The holding does not cover the debit.
    InsufficientHoldings,
    /// The order is not pending, is of the other side, or belongs to the
    /// wrong user for this operation.
    InvalidState,
    /// The price cache holds no current price for the asset.
    PriceUnavailable,
    /// A credit would exceed the largest quantity that can be held.
    Overflow,
}

impl OrderStatus {
    /// Whether no transition leaves this status.
    pub open spec fn is_terminal(self) -> bool {
        self != OrderStatus::Pending
    }

    /// The lower-case name under which the status is stored.
    pub fn label(&self) -> (r: &'static str)
        ensures
            r@ == status_label(*self),
    {
        match self {
            OrderStatus::Pending => "pending",
            OrderStatus::Done => "done",
            OrderStatus::Cancel => "cancel",
        }
    }
}

/// The stored name of a status.
pub open spec fn status_label(s: OrderStatus) -> Seq<char> {
    match s {
        OrderStatus::Pending => "pending"@,
        OrderStatus::Done => "done"@,
        OrderStatus::Cancel => "cancel"@,
    }
}

/// The stored name of a side.
pub open spec fn type_label(t: OrderType) -> Seq<char> {
    match t {
        OrderType::Buy => "buy"@,
        OrderType::Sell => "sell"@,
    }
}

impl OrderType {
    /// The lower-case name under which the side is stored.
    pub fn label(&self) -> (r: &'static str)
        ensures
            r@ == type_label(*self),
    {
        match self {
            OrderType::Buy => "buy",
            OrderType::Sell => "sell",
        }
    }
}

} // verus!
