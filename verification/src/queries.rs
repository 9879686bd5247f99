//! Read-only listings: the orders of an asset, the trades of a user, the
//! recent price history of an asset, and the pending volume of one side.

use crate::fixed::Amount;
use crate::ledger::Ledger;
use crate::ledger::LedgerView;
use crate::settlement::held;
use crate::orders::Order;
use crate::orders::OrderStatus;
use crate::orders::OrderType;
use crate::orders::SettlementError;
use crate::orders::Trade;
use crate::price_cache::keep_recent;
use crate::price_cache::pruned;
use crate::price_cache::PriceCache;
use crate::price_cache::PriceHistoryPoint;
use crate::price_cache::RETENTION_SECONDS;
use crate::requests::AssetQuery;
use crate::requests::OrderQuery;
use crate::requests::OrdersPath;
use crate::requests::OrdersPathByUser;
use crate::requests::PricePath;
use crate::requests::TradePath;
use crate::requests::UserIdQuery;
use vstd::prelude::*;

verus! {

/// Whether `o` is an order of `asset`, of `user` if one is given, and of
/// the status and side that `query` asks for.
pub open spec fn order_matches(o: Order, asset: i32, user: Option<i32>, query: OrderQuery) -> bool {
    &&& o.asset_id == asset
    &&& (user matches Some(u) ==> o.user_id == u)
    &&& (query.status matches Some(s) ==> o.status == s)
    &&& (query.order_type matches Some(t) ==> o.order_type == t)
}

/// The orders of `orders` that match, in their order.
pub open spec fn matching_orders(
    orders: Seq<Order>,
    asset: i32,
    user: Option<i32>,
    query: OrderQuery,
) -> Seq<Order> {
    orders.filter(|o: Order| order_matches(o, asset, user, query))
}

/// The page of `s` that passes over `offset` items and then takes up to
/// `limit` items.
pub open spec fn page<A>(s: Seq<A>, offset: int, limit: int) -> Seq<A> {
    let from = if offset < s.len() {
        offset
    } else {
        s.len() as int
    };
    let to = if offset + limit < s.len() {
        offset + limit
    } else {
        s.len() as int
    };
    s.subrange(from, to)
}

/// The offset of a query: none if absent.
pub open spec fn offset_of(query: OrderQuery) -> int {
    match query.offset {
        Some(n) => n as int,
        None => 0,
    }
}

/// The trades of `user`, in their order.
pub open spec fn trades_of(trades: Seq<Trade>, user: i32) -> Seq<Trade> {
    trades.filter(|t: Trade| t.user_id == user)
}

/// The sum of the amounts of the pending orders of one side of an asset,
/// in thousandths.
pub open spec fn pending_millis(orders: Seq<Order>, asset: i32, side: OrderType) -> int
    decreases orders.len(),
{
    if orders.len() == 0 {
        0
    } else {
        let o = orders.last();
        let before = pending_millis(orders.drop_last(), asset, side);
        if o.asset_id == asset && o.order_type == side && o.status == OrderStatus::Pending {
            before + o.amount.millis
        } else {
            before
        }
    }
}

/// The moment before which a price history is not shown, seen from `now`.
pub open spec fn history_cutoff(now: i64) -> i64 {
    if now < i64::MIN + RETENTION_SECONDS {
        i64::MIN
    } else {
        (now - RETENTION_SECONDS) as i64
    }
}

/// Growing a sequence by one item grows a page of it by that item exactly
/// if the item falls on the page.
proof fn lemma_page_push<A>(s: Seq<A>, x: A, offset: int, limit: int)
    requires
        0 <= offset,
        0 <= limit,
    ensures
        page(s.push(x), offset, limit) == if offset <= s.len() < offset + limit {
            page(s, offset, limit).push(x)
        } else {
            page(s, offset, limit)
        },
{
    if offset <= s.len() < offset + limit {
        assert(page(s.push(x), offset, limit) =~= page(s, offset, limit).push(x));
    } else {
        assert(page(s.push(x), offset, limit) =~= page(s, offset, limit));
    }
}

fn matches_query(o: &Order, asset: i32, user: Option<i32>, query: &OrderQuery) -> (r: bool)
    ensures
        r == order_matches(*o, asset, user, *query),
{
    let of_user = match user {
        Some(u) => o.user_id == u,
        None => true,
    };
    let of_status = match query.status {
        Some(s) => o.status == s,
        None => true,
    };
    let of_side = match query.order_type {
        Some(t) => o.order_type == t,
        None => true,
    };
    o.asset_id == asset && of_user && of_status && of_side
}

/// The orders of `orders` that are of `asset`, of `user` if one is given,
/// and of the status and side that `query` asks for, one page of them.
pub fn select_orders(orders: &Vec<Order>, asset: i32, user: Option<i32>, query: &OrderQuery) -> (r:
    Vec<Order>)
    ensures
        r@ == page(
            matching_orders(orders@, asset, user, *query),
            offset_of(*query),
            query.limit as int,
        ),
{
    let offset: u64 = match query.offset {
        Some(n) => n,
        None => 0,
    };
    let mut out: Vec<Order> = Vec::new();
    let mut seen: u64 = 0;
    let mut i: usize = 0;
    proof {
        reveal(Seq::filter);
        assert(orders@.subrange(0, 0) =~= Seq::<Order>::empty());
        assert(out@ =~= page(
            matching_orders(orders@.subrange(0, 0), asset, user, *query),
            offset as int,
            query.limit as int,
        ));
    }
    while i < orders.len()
        invariant
            0 <= i <= orders@.len(),
            offset == offset_of(*query),
            seen == matching_orders(orders@.subrange(0, i as int), asset, user, *query).len(),
            seen <= i,
            out@ == page(
                matching_orders(orders@.subrange(0, i as int), asset, user, *query),
                offset as int,
                query.limit as int,
            ),
        decreases orders@.len() - i,
    {
        let o = orders[i];
        proof {
            let pred = |o: Order| order_matches(o, asset, user, *query);
            let before = orders@.subrange(0, i as int);
            assert(orders@.subrange(0, i + 1) =~= before.push(o));
            assert(before.push(o).drop_last() =~= before);
            reveal(Seq::filter);
            assert(before.push(o).filter(pred) == if pred(o) {
                before.filter(pred).push(o)
            } else {
                before.filter(pred)
            });
            lemma_page_push(before.filter(pred), o, offset as int, query.limit as int);
        }
        if matches_query(&o, asset, user, query) {
            if seen >= offset && seen - offset < query.limit {
                out.push(o);
            }
            seen += 1;
        }
        i += 1;
    }
    proof {
        assert(orders@.subrange(0, orders@.len() as int) =~= orders@);
    }
    out
}

/// The orders of the asset of `path` that `query` asks for: those of the
/// wanted status and side, in the order of placing, one page of them.
pub fn user_orders(ledger: &Ledger, path: &OrdersPath, query: &OrderQuery) -> (r: Vec<Order>)
    ensures
        r@ == page(
            matching_orders(ledger@.orders, path.asset_id, None, *query),
            offset_of(*query),
            query.limit as int,
        ),
{
    select_orders(ledger.orders(), path.asset_id, None, query)
}

/// The orders of the user and the asset of `path` that `query` asks for.
pub fn user_orders_by_user(ledger: &Ledger, path: &OrdersPathByUser, query: &OrderQuery) -> (r:
    Vec<Order>)
    ensures
        r@ == page(
            matching_orders(ledger@.orders, path.asset_id, Some(path.user_id), *query),
            offset_of(*query),
            query.limit as int,
        ),
{
    select_orders(ledger.orders(), path.asset_id, Some(path.user_id), query)
}

/// The rows of `trades` that are of `user`, in their order.
pub fn select_trades(trades: &Vec<Trade>, user: i32) -> (r: Vec<Trade>)
    ensures
        r@ == trades_of(trades@, user),
{
    let mut out: Vec<Trade> = Vec::new();
    let mut i: usize = 0;
    proof {
        reveal(Seq::filter);
        assert(trades@.subrange(0, 0) =~= Seq::<Trade>::empty());
    }
    while i < trades.len()
        invariant
            0 <= i <= trades@.len(),
            out@ == trades_of(trades@.subrange(0, i as int), user),
        decreases trades@.len() - i,
    {
        let t = trades[i];
        proof {
            let before = trades@.subrange(0, i as int);
            assert(trades@.subrange(0, i + 1) =~= before.push(t));
            assert(before.push(t).drop_last() =~= before);
            reveal(Seq::filter);
        }
        if t.user_id == user {
            out.push(t);
        }
        i += 1;
    }
    proof {
        assert(trades@.subrange(0, trades@.len() as int) =~= trades@);
    }
    out
}

/// The balance of an account, or the failure that a missing account is to
/// a listing.
pub fn account(balance: Option<Amount>) -> (r: Result<Amount, SettlementError>)
    ensures
        r == match balance {
            Some(b) => Ok::<Amount, SettlementError>(b),
            None => Err::<Amount, SettlementError>(SettlementError::UserNotFound),
        },
{
    match balance {
        Some(b) => Ok(b),
        None => Err(SettlementError::UserNotFound),
    }
}

/// What a user holds of each asset of `rows`, given the rows that were
/// found: an asset without a row counts as nothing held.
pub fn holdings_or_zero(rows: &Vec<(i32, Option<Amount>)>) -> (r: Vec<(i32, Amount)>)
    ensures
        r@.len() == rows@.len(),
        forall|i: int|
            0 <= i < r@.len() ==> #[trigger] r@[i] == (
                rows@[i].0,
                Amount { millis: held(rows@[i].1) as u64 },
            ),
{
    let mut out: Vec<(i32, Amount)> = Vec::new();
    let mut i: usize = 0;
    while i < rows.len()
        invariant
            0 <= i <= rows@.len(),
            out@.len() == i,
            forall|k: int|
                0 <= k < i ==> #[trigger] out@[k] == (
                    rows@[k].0,
                    Amount { millis: held(rows@[k].1) as u64 },
                ),
        decreases rows@.len() - i,
    {
        let row = rows[i];
        let amount = match row.1 {
            Some(a) => a,
            None => Amount::zero(),
        };
        out.push((row.0, amount));
        i += 1;
    }
    out
}

/// The trades of the user of `path`, oldest first; a user without an
/// account has no history to show.
pub fn trades_history(ledger: &Ledger, path: &TradePath) -> (r: Result<Vec<Trade>, SettlementError>)
    ensures
        ledger@.balance(path.user_id) is None ==> r == Err::<Vec<Trade>, SettlementError>(
            SettlementError::UserNotFound,
        ),
        ledger@.balance(path.user_id) is Some ==> (r matches Ok(list) && list@ == trades_of(
            ledger@.trades,
            path.user_id,
        )),
{
    match account(ledger.balance_of(path.user_id)) {
        Err(e) => Err(e),
        Ok(_) => Ok(select_trades(ledger.trades(), path.user_id)),
    }
}

/// The price history of the asset of `path` over the last day before `now`,
/// oldest point first.
pub fn price_history(cache: &PriceCache, path: &PricePath, now: i64) -> (r: Vec<PriceHistoryPoint>)
    requires
        cache.wf(),
    ensures
        r@ == pruned(cache@.series(path.asset_id), history_cutoff(now)),
{
    let cutoff: i64 = if now < i64::MIN + RETENTION_SECONDS {
        i64::MIN
    } else {
        now - RETENTION_SECONDS
    };
    let series = cache.history(path.asset_id);
    proof {
        cache.lemma_series_rising(path.asset_id);
    }
    keep_recent(&series, cutoff)
}

/// The sum of the amounts of the pending orders of one side of an asset;
/// the largest quantity that can be held stands for every larger sum.
pub fn pending_amount(ledger: &Ledger, asset_id: i32, side: OrderType) -> (r: Amount)
    ensures
        r.millis == if pending_millis(ledger@.orders, asset_id, side) > u64::MAX {
            u64::MAX as int
        } else {
            pending_millis(ledger@.orders, asset_id, side)
        },
{
    let orders = ledger.orders();
    let mut total: u64 = 0;
    let mut i: usize = 0;
    proof {
        assert(orders@.subrange(0, 0) =~= Seq::<Order>::empty());
    }
    while i < orders.len()
        invariant
            0 <= i <= orders@.len(),
            0 <= pending_millis(orders@.subrange(0, i as int), asset_id, side),
            total == if pending_millis(orders@.subrange(0, i as int), asset_id, side) > u64::MAX {
                u64::MAX as int
            } else {
                pending_millis(orders@.subrange(0, i as int), asset_id, side)
            },
        decreases orders@.len() - i,
    {
        let o = orders[i];
        proof {
            let before = orders@.subrange(0, i as int);
            assert(orders@.subrange(0, i + 1) =~= before.push(o));
            assert(before.push(o).drop_last() =~= before);
        }
        if o.asset_id == asset_id && o.order_type == side && o.status == OrderStatus::Pending {
            total = total.saturating_add(o.amount.millis);
        }
        i += 1;
    }
    proof {
        assert(orders@.subrange(0, orders@.len() as int) =~= orders@);
    }
    Amount::from_millis(total)
}

/// What a user holds of each asset of `assets`, in their order; an asset
/// without a row counts as nothing held.
pub open spec fn holdings_of(books: LedgerView, user: i32, assets: Seq<i32>) -> Seq<(i32, Amount)> {
    Seq::new(
        assets.len(),
        |i: int| (assets[i], Amount { millis: held(books.holding(user, assets[i])) as u64 }),
    )
}

/// The cash balance of the user of `query`.
pub fn user_info(ledger: &Ledger, query: &UserIdQuery) -> (r: Result<Amount, SettlementError>)
    ensures
        r == match ledger@.balance(query.user_id) {
            Some(b) => Ok::<Amount, SettlementError>(b),
            None => Err::<Amount, SettlementError>(SettlementError::UserNotFound),
        },
{
    account(ledger.balance_of(query.user_id))
}

/// What the user of `path` holds of each asset of `assets`; a user without
/// an account has nothing to show.
pub fn user_assets(ledger: &Ledger, path: &AssetQuery, assets: &Vec<i32>) -> (r: Result<
    Vec<(i32, Amount)>,
    SettlementError,
>)
    ensures
        ledger@.balance(path.user_id) is None ==> r == Err::<Vec<(i32, Amount)>, SettlementError>(
            SettlementError::UserNotFound,
        ),
        ledger@.balance(path.user_id) is Some ==> (r matches Ok(list) && list@ == holdings_of(
            ledger@,
            path.user_id,
            assets@,
        )),
{
    if ledger.balance_of(path.user_id).is_none() {
        return Err(SettlementError::UserNotFound);
    }
    let mut out: Vec<(i32, Amount)> = Vec::new();
    let mut i: usize = 0;
    while i < assets.len()
        invariant
            0 <= i <= assets@.len(),
            out@.len() == i,
            forall|k: int|
                0 <= k < i ==> #[trigger] out@[k] == holdings_of(ledger@, path.user_id, assets@)[k],
        decreases assets@.len() - i,
    {
        let asset = assets[i];
        let amount = match ledger.holding_of(path.user_id, asset) {
            Some(a) => a,
            None => Amount::zero(),
        };
        out.push((asset, amount));
        i += 1;
    }
    assert(out@ =~= holdings_of(ledger@, path.user_id, assets@));
    Ok(out)
}

} // verus!
