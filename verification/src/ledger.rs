//! The books that settlement works on: cash balances, holdings, orders and
//! the trade ledger.

use crate::fixed::Amount;
use crate::orders::Order;
use crate::orders::OrderStatus;
use crate::orders::Trade;
use std::collections::HashMap;
use vstd::prelude::*;

verus! {

broadcast use vstd::std_specs::hash::group_hash_axioms;

/// What the books hold, as mathematical values.
pub struct LedgerView {
    /// The cash balance of each user that has an account.
    pub balances: Map<i32, Amount>,
    /// The holding of each user and asset, keyed by `(user, asset)`.
    pub holdings: Map<(i32, i32), Amount>,
    /// Every order ever placed, in the order of placing.
    pub orders: Seq<Order>,
    /// Every trade ever recorded, oldest first.
    pub trades: Seq<Trade>,
}

/// The books.
pub struct Ledger {
    users: HashMap<i32, Amount>,
    holdings: HashMap<u64, Amount>,
    orders: Vec<Order>,
    trades: Vec<Trade>,
}

/// The key under which the holding of `user` in `asset` is stored.
pub open spec fn holding_key(user: i32, asset: i32) -> int {
    (user + 0x8000_0000) * 0x1_0000_0000 + (asset + 0x8000_0000)
}

/// Different pairs of user and asset have different keys.
pub proof fn lemma_holding_key_injective(u1: i32, a1: i32, u2: i32, a2: i32)
    ensures
        0 <= holding_key(u1, a1) <= u64::MAX,
        holding_key(u1, a1) == holding_key(u2, a2) ==> u1 == u2 && a1 == a2,
{
}

fn key_of(user: i32, asset: i32) -> (k: u64)
    ensures
        k == holding_key(user, asset),
{
    let u: u64 = (user as i64 + 0x8000_0000) as u64;
    let a: u64 = (asset as i64 + 0x8000_0000) as u64;
    u * 0x1_0000_0000 + a
}

/// The position of the order with the given id, where there is one.
pub open spec fn order_index(orders: Seq<Order>, id: i32) -> Option<int> {
    if 1 <= id <= orders.len() {
        Some(id - 1)
    } else {
        None
    }
}

impl LedgerView {
    /// The balance of `user`, if the user has an account.
    pub open spec fn balance(self, user: i32) -> Option<Amount> {
        if self.balances.contains_key(user) {
            Some(self.balances[user])
        } else {
            None
        }
    }

    /// The holding of `user` in `asset`, if there is a row for it.
    pub open spec fn holding(self, user: i32, asset: i32) -> Option<Amount> {
        if self.holdings.contains_key((user, asset)) {
            Some(self.holdings[(user, asset)])
        } else {
            None
        }
    }

    /// The order with the given id, if there is one.
    pub open spec fn order(self, id: i32) -> Option<Order> {
        match order_index(self.orders, id) {
            Some(i) => Some(self.orders[i]),
            None => None,
        }
    }

    /// The books with the balance of `user` set.
    pub open spec fn with_balance(self, user: i32, amount: Amount) -> LedgerView {
        LedgerView { balances: self.balances.insert(user, amount), ..self }
    }

    /// The books with the holding of `user` in `asset` set.
    pub open spec fn with_holding(self, user: i32, asset: i32, amount: Amount) -> LedgerView {
        LedgerView { holdings: self.holdings.insert((user, asset), amount), ..self }
    }

    /// The books with one more order.
    pub open spec fn with_order(self, order: Order) -> LedgerView {
        LedgerView { orders: self.orders.push(order), ..self }
    }

    /// The books with the order at `index` replaced.
    pub open spec fn with_order_at(self, index: int, order: Order) -> LedgerView {
        LedgerView { orders: self.orders.update(index, order), ..self }
    }

    /// The books with one more trade.
    pub open spec fn with_trade(self, trade: Trade) -> LedgerView {
        LedgerView { trades: self.trades.push(trade), ..self }
    }
}

impl Ledger {
    /// What the books hold.
    pub closed spec fn view(&self) -> LedgerView {
        LedgerView {
            balances: self.users@,
            holdings: Map::new(
                |p: (i32, i32)| self.holdings@.contains_key(holding_key(p.0, p.1) as u64),
                |p: (i32, i32)| self.holdings@[holding_key(p.0, p.1) as u64],
            ),
            orders: self.orders@,
            trades: self.trades@,
        }
    }

    /// Order ids count up from 1 in the order of placing, and there is room
    /// for the id of one more order.
    pub closed spec fn wf(&self) -> bool {
        &&& self.orders@.len() < i32::MAX
        &&& forall|i: int| 0 <= i < self.orders@.len() ==> (#[trigger] self.orders@[i]).id == i + 1
    }

    /// In well-formed books the order at each position has the id that
    /// follows from the position.
    pub proof fn lemma_order_ids(&self)
        requires
            self.wf(),
        ensures
            self@.orders.len() < i32::MAX,
            forall|i: int| 0 <= i < self@.orders.len() ==> (#[trigger] self@.orders[i]).id == i + 1,
    {
    }

    /// Empty books.
    pub fn new() -> (r: Ledger)
        ensures
            r.wf(),
            r@.balances == Map::<i32, Amount>::empty(),
            r@.holdings == Map::<(i32, i32), Amount>::empty(),
            r@.orders == Seq::<Order>::empty(),
            r@.trades == Seq::<Trade>::empty(),
    {
        let r = Ledger {
            users: HashMap::new(),
            holdings: HashMap::new(),
            orders: Vec::new(),
            trades: Vec::new(),
        };
        assert(r@.holdings =~= Map::<(i32, i32), Amount>::empty());
        r
    }

    /// The balance of `user`, if the user has an account.
    pub fn balance_of(&self, user: i32) -> (r: Option<Amount>)
        ensures
            r == self@.balance(user),
    {
        match self.users.get(&user) {
            Some(a) => Some(*a),
            None => None,
        }
    }

    /// The holding of `user` in `asset`, if there is a row for it.
    pub fn holding_of(&self, user: i32, asset: i32) -> (r: Option<Amount>)
        ensures
            r == self@.holding(user, asset),
    {
        let k = key_of(user, asset);
        match self.holdings.get(&k) {
            Some(a) => Some(*a),
            None => None,
        }
    }

    /// The order with the given id, if there is one.
    pub fn order(&self, id: i32) -> (r: Option<Order>)
        ensures
            r == self@.order(id),
    {
        if id >= 1 && (id as usize) <= self.orders.len() {
            Some(self.orders[(id - 1) as usize])
        } else {
            None
        }
    }

    /// Every order ever placed, in the order of placing.
    pub fn orders(&self) -> (r: &Vec<Order>)
        ensures
            r@ == self@.orders,
    {
        &self.orders
    }

    /// Every trade ever recorded, oldest first.
    pub fn trades(&self) -> (r: &Vec<Trade>)
        ensures
            r@ == self@.trades,
    {
        &self.trades
    }

    /// The number of orders ever placed.
    pub fn order_count(&self) -> (r: usize)
        ensures
            r == self@.orders.len(),
    {
        self.orders.len()
    }

    /// The number of trades recorded.
    pub fn trade_count(&self) -> (r: usize)
        ensures
            r == self@.trades.len(),
    {
        self.trades.len()
    }

    /// The trade at `index`, oldest first, if there is one.
    pub fn trade(&self, index: usize) -> (r: Option<Trade>)
        ensures
            r == (if index < self@.trades.len() {
                Some(self@.trades[index as int])
            } else {
                None
            }),
    {
        if index < self.trades.len() {
            Some(self.trades[index])
        } else {
            None
        }
    }

    /// Opens the account of `user` with `amount`, or overwrites its balance.
    pub fn set_balance(&mut self, user: i32, amount: Amount)
        requires
            old(self).wf(),
        ensures
            final(self).wf(),
            final(self)@ == old(self)@.with_balance(user, amount),
    {
        self.users.insert(user, amount);
        assert(self@.holdings =~= old(self)@.holdings);
    }

    /// Creates the holding of `user` in `asset` with `amount`, or overwrites it.
    pub fn set_holding(&mut self, user: i32, asset: i32, amount: Amount)
        requires
            old(self).wf(),
        ensures
            final(self).wf(),
            final(self)@ == old(self)@.with_holding(user, asset, amount),
    {
        let k = key_of(user, asset);
        self.holdings.insert(k, amount);
        proof {
            assert forall|p: (i32, i32)|
                holding_key(p.0, p.1) == holding_key(user, asset) implies p == (user, asset) by {
                lemma_holding_key_injective(p.0, p.1, user, asset);
            }
            assert(self@.holdings =~= old(self)@.holdings.insert((user, asset), amount));
        }
    }

    /// Appends `order`, which must carry the next free id.
    pub(crate) fn push_order(&mut self, order: Order)
        requires
            old(self).wf(),
            old(self)@.orders.len() + 1 < i32::MAX,
            order.id == old(self)@.orders.len() + 1,
        ensures
            final(self).wf(),
            final(self)@ == old(self)@.with_order(order),
    {
        self.orders.push(order);
        assert(self@.holdings =~= old(self)@.holdings);
    }

    /// Moves the order at `index` to `status` and stamps it with `now`.
    pub(crate) fn close_order(&mut self, index: usize, status: OrderStatus, now: i64)
        requires
            old(self).wf(),
            index < old(self)@.orders.len(),
        ensures
            final(self).wf(),
            final(self)@ == old(self)@.with_order_at(
                index as int,
                (Order { status: status, updated_at: now, ..old(self)@.orders[index as int] }),
            ),
    {
        let prev = self.orders[index];
        let next = Order { status: status, updated_at: now, ..prev };
        self.orders.set(index, next);
        assert(self@.holdings =~= old(self)@.holdings);
    }

    /// Appends `trade` to the trade ledger.
    pub(crate) fn push_trade(&mut self, trade: Trade)
        requires
            old(self).wf(),
        ensures
            final(self).wf(),
            final(self)@ == old(self)@.with_trade(trade),
    {
        self.trades.push(trade);
        assert(self@.holdings =~= old(self)@.holdings);
    }
}

} // verus!
