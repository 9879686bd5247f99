//! The plain values that come in with a request and go out with a response.

use crate::fixed::Amount;
use crate::orders::OrderStatus;
use crate::orders::OrderType;
use crate::orders::SettlementError;
use vstd::prelude::*;

verus! {

/// Whether a response carries a result or a failure.
#[derive(Clone, Copy, Debug, PartialEq, Eq, Structural)]
pub enum ResponseStatus {
    Success,
    Error,
}

/// The envelope of every response.
#[derive(Debug)]
pub struct CommonResponse<T> {
    pub status: ResponseStatus,
    pub data: T,
    pub error: Option<String>,
}

/// A market buy of `amount` units of an asset.
#[derive(Clone, Copy, Debug, PartialEq, Eq, Structural)]
pub struct BuyMarketRequest {
    pub asset_id: i32,
    pub amount: Amount,
}

/// A market sell of `amount` units of an asset.
#[derive(Clone, Copy, Debug, PartialEq, Eq, Structural)]
pub struct SellMarketRequest {
    pub asset_id: i32,
    pub amount: Amount,
}

/// What a market order gave its user, and what was withheld.
#[derive(Clone, Copy, Debug, PartialEq, Eq, Structural)]
pub struct BuyMarketResponse {
    pub amount: Amount,
    pub commission: Amount,
}

/// The placing of a limit order.
#[derive(Clone, Copy, Debug, PartialEq, Eq, Structural)]
pub struct OrderCreateInput {
    pub order_type: OrderType,
    pub asset_id: i32,
    pub amount: Amount,
    pub price: Amount,
}

/// The id of the order that was placed.
#[derive(Clone, Copy, Debug, PartialEq, Eq, Structural)]
pub struct OrderCreateResponse {
    pub order_id: i32,
}

/// The fill of a buy order.
#[derive(Clone, Copy, Debug, PartialEq, Eq, Structural)]
pub struct OrderBuyInput {
    pub order_id: i32,
}

/// The fill of a sell order.
#[derive(Clone, Copy, Debug, PartialEq, Eq, Structural)]
pub struct OrderSellInput {
    pub order_id: i32,
}

/// The cancellation of an order.
#[derive(Clone, Copy, Debug, PartialEq, Eq, Structural)]
pub struct OrderCancelInput {
    pub order_id: i32,
}

/// The balance that a fill of a buy order left.
#[derive(Clone, Copy, Debug, PartialEq, Eq, Structural)]
pub struct BuyOrderResponse {
    pub balance: Amount,
}

/// The balance that a fill of a sell order left.
#[derive(Clone, Copy, Debug, PartialEq, Eq, Structural)]
pub struct SellOrderResponse {
    pub balance: Amount,
}

/// The asset whose price history is asked for.
#[derive(Clone, Copy, Debug, PartialEq, Eq, Structural)]
pub struct PricePath {
    pub asset_id: i32,
}

/// One point of a price history as text.
#[derive(Debug, PartialEq, Eq)]
pub struct PriceResponse {
    pub price: String,
    pub timestamp: String,
}

/// The user whose trades are asked for.
#[derive(Clone, Copy, Debug, PartialEq, Eq, Structural)]
pub struct TradePath {
    pub user_id: i32,
}

/// The user whose holdings are asked for.
#[derive(Clone, Copy, Debug, PartialEq, Eq, Structural)]
pub struct AssetQuery {
    pub user_id: i32,
}

/// The user whose account is asked for.
#[derive(Clone, Copy, Debug, PartialEq, Eq, Structural)]
pub struct UserIdQuery {
    pub user_id: i32,
}

/// The asset whose orders are asked for.
#[derive(Clone, Copy, Debug, PartialEq, Eq, Structural)]
pub struct OrdersPath {
    pub asset_id: i32,
}

/// The user and the asset whose orders are asked for.
#[derive(Clone, Copy, Debug, PartialEq, Eq, Structural)]
pub struct OrdersPathByUser {
    pub user_id: i32,
    pub asset_id: i32,
}

/// Which orders of a listing are wanted, and which page of them.
#[derive(Clone, Copy, Debug, PartialEq, Eq, Structural)]
pub struct OrderQuery {
    /// The largest number of orders to return.
    pub limit: u64,
    /// How many matching orders to pass over first; none if absent.
    pub offset: Option<u64>,
    /// Only orders of this status, if given.
    pub status: Option<OrderStatus>,
    /// Only orders of this side, if given.
    pub order_type: Option<OrderType>,
}

/// The text that tells a user why a settlement was refused.
pub open spec fn refusal_text(e: SettlementError) -> Seq<char> {
    match e {
        SettlementError::UserNotFound => "Can't find user"@,
        SettlementError::HoldingNotFound => "No asset data for this user"@,
        SettlementError::OrderNotFound => "No order with this ID"@,
        SettlementError::InsufficientFunds => "Not enough balance"@,
        SettlementError::InsufficientHoldings => "Not enough asset amount"@,
        SettlementError::InvalidState => "Can't execute this order"@,
        SettlementError::PriceUnavailable => "Can't get price"@,
        SettlementError::Overflow => "Amount is too large"@,
    }
}

impl SettlementError {
    /// The text that tells a user why a settlement was refused.
    pub fn message(&self) -> (r: &'static str)
        ensures
            r@ == refusal_text(*self),
    {
        match self {
            SettlementError::UserNotFound => "Can't find user",
            SettlementError::HoldingNotFound => "No asset data for this user",
            SettlementError::OrderNotFound => "No order with this ID",
            SettlementError::InsufficientFunds => "Not enough balance",
            SettlementError::InsufficientHoldings => "Not enough asset amount",
            SettlementError::InvalidState => "Can't execute this order",
            SettlementError::PriceUnavailable => "Can't get price",
            SettlementError::Overflow => "Amount is too large",
        }
    }
}

impl<T> CommonResponse<T> {
    /// A response that carries a result.
    pub fn success(data: T) -> (r: Self)
        ensures
            r.status == ResponseStatus::Success,
            r.data == data,
            r.error is None,
    {
        CommonResponse { status: ResponseStatus::Success, data: data, error: None }
    }

    /// A response that carries a failure and its text.
    pub fn failure(data: T, message: &str) -> (r: Self)
        ensures
            r.status == ResponseStatus::Error,
            r.data == data,
            (r.error matches Some(text) && text@ == message@),
    {
        CommonResponse {
            status: ResponseStatus::Error,
            data: data,
            error: Some(message.to_owned()),
        }
    }
}

} // verus!
