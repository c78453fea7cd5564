//! Market orders and the reduction of an item's live orders to one price.

use vstd::prelude::*;
use vstd::relations::{sorted_by, total_ordering};

use crate::text::same_text;

verus! {

/// Whether an order buys or sells.
#[derive(Debug, Clone, Copy, PartialEq, Eq, Structural)]
pub enum OrderType {
    Buy,
    Sell,
}

/// The platform an order was placed on.
#[derive(Debug, Clone, Copy, PartialEq, Eq, Structural)]
pub enum Platform {
    Pc,
    Xbox,
    Ps4,
    Switch,
}

/// The presence of the user who placed an order.
#[derive(Debug, Clone, Copy, PartialEq, Eq, Structural)]
pub enum UserStatus {
    Ingame,
    Online,
    Offline,
}

/// The user who placed an order. Times are milliseconds since the Unix epoch.
#[derive(Debug, Clone)]
pub struct User {
    pub reputation: u32,
    pub locale: String,
    pub avatar: Option<String>,
    pub ingame_name: String,
    pub last_seen: i64,
    pub id: String,
    pub region: String,
    pub status: UserStatus,
}

/// One live order of the market. Times are milliseconds since the Unix epoch.
#[derive(Debug, Clone)]
pub struct Order {
    pub quantity: u32,
    pub platinum: u32,
    pub order_type: OrderType,
    pub visible: bool,
    pub platform: Platform,
    pub creation_date: i64,
    pub last_update: i64,
    pub id: String,
    pub region: String,
    pub user: User,
}

/// An order that takes part in pricing: a buy order on PC in the "en" region.
pub open spec fn is_candidate(o: Order) -> bool {
    &&& o.platform == Platform::Pc
    &&& o.region@ == seq!['e', 'n']
    &&& o.order_type == OrderType::Buy
}

/// An order whose user is not offline.
pub open spec fn is_online(o: Order) -> bool {
    o.user.status != UserStatus::Offline
}

/// The prices of the candidate orders, in order; with `online_only`, of
/// those whose user is not offline.
pub open spec fn candidate_prices(orders: Seq<Order>, online_only: bool) -> Seq<u32>
    decreases orders.len(),
{
    if orders.len() == 0 {
        Seq::empty()
    } else {
        let rest = candidate_prices(orders.drop_last(), online_only);
        let o = orders.last();
        if is_candidate(o) && (!online_only || is_online(o)) {
            rest.push(o.platinum)
        } else {
            rest
        }
    }
}

/// The prices that the aggregate is taken over: those of online users when
/// more than three candidate orders have one, else all candidates.
pub open spec fn preferred_prices(orders: Seq<Order>) -> Seq<u32> {
    let online = candidate_prices(orders, true);
    if online.len() > 3 {
        online
    } else {
        candidate_prices(orders, false)
    }
}

/// The ascending order on prices.
pub open spec fn price_leq() -> spec_fn(u32, u32) -> bool {
    |a: u32, b: u32| a <= b
}

/// The prices in ascending order.
pub open spec fn sorted_prices(prices: Seq<u32>) -> Seq<u32> {
    prices.sort_by(price_leq())
}

/// The upper median: the element at index `len / 2` of the sorted prices,
/// and 0 for no prices.
pub open spec fn median_price(prices: Seq<u32>) -> u32 {
    if prices.len() == 0 {
        0
    } else {
        sorted_prices(prices)[(prices.len() / 2) as int]
    }
}

/// The price that a list of orders yields.
pub open spec fn order_price(orders: Seq<Order>) -> u32 {
    median_price(preferred_prices(orders))
}

proof fn lemma_price_leq_total()
    ensures
        total_ordering(price_leq()),
{
}

/// The sorted prices are the one ascending arrangement of the prices.
proof fn lemma_sorted_prices_unique(prices: Seq<u32>, sorted: Seq<u32>)
    requires
        sorted_by(sorted, price_leq()),
        sorted.to_multiset() == prices.to_multiset(),
    ensures
        sorted_prices(prices) == sorted,
{
    lemma_price_leq_total();
    prices.lemma_sort_by_ensures(price_leq());
    vstd::seq_lib::lemma_sorted_unique(sorted_prices(prices), sorted, price_leq());
}

/// For a list of prices already in ascending order, the aggregate price is
/// the element at index `len / 2`, and 0 for the empty list.
pub proof fn lemma_median_of_sorted(prices: Seq<u32>)
    requires
        sorted_by(prices, price_leq()),
    ensures
        median_price(prices) == if prices.len() == 0 {
            0
        } else {
            prices[(prices.len() / 2) as int]
        },
{
    lemma_sorted_prices_unique(prices, prices);
}

/// Sorts prices into ascending order.
pub fn sort_prices(prices: &Vec<u32>) -> (r: Vec<u32>)
    ensures
        r@ == sorted_prices(prices@),
        r@.len() == prices@.len(),
{
    broadcast use vstd::seq_lib::group_to_multiset_ensures;

    let mut out: Vec<u32> = Vec::new();
    let mut i: usize = 0;
    while i < prices.len()
        invariant
            i <= prices@.len(),
            sorted_by(out@, price_leq()),
            out@.to_multiset() == prices@.take(i as int).to_multiset(),
        decreases prices@.len() - i,
    {
        let x = prices[i];
        let mut j: usize = 0;
        while j < out.len() && out[j] <= x
            invariant
                j <= out@.len(),
                forall|k: int| 0 <= k < j ==> out@[k] <= x,
            decreases out@.len() - j,
        {
            j = j + 1;
        }
        proof {
            assert(j < out@.len() ==> x < out@[j as int]);
        }
        let ghost before = out@;
        out.insert(j, x);
        proof {
            assert forall|a: int, b: int| 0 <= a < b < out@.len() implies #[trigger] price_leq()(
                out@[a],
                out@[b],
            ) by {
                if b < j {
                    assert(price_leq()(before[a], before[b]));
                } else if a < j && b == j {
                } else if a < j {
                    assert(price_leq()(before[a], before[b - 1]));
                } else if a == j {
                    assert(price_leq()(before[j as int], before[b - 1]));
                } else {
                    assert(price_leq()(before[a - 1], before[b - 1]));
                }
            }
            assert(out@ == before.insert(j as int, x));
            vstd::seq_lib::to_multiset_insert(before, j as int, x);
            assert(prices@.take(i + 1) =~= prices@.take(i as int).push(x));
            vstd::seq_lib::to_multiset_build(prices@.take(i as int), x);
        }
        i = i + 1;
    }
    assert(prices@.take(i as int) =~= prices@);
    proof {
        lemma_sorted_prices_unique(prices@, out@);
        out@.to_multiset_ensures();
        prices@.to_multiset_ensures();
    }
    out
}

/// The upper median of a list of prices: the element at index `len / 2`
/// once sorted, and 0 for no prices.
pub fn median_of_prices(prices: &Vec<u32>) -> (r: u32)
    ensures
        r == median_price(prices@),
{
    let sorted = sort_prices(prices);
    if sorted.len() == 0 {
        0
    } else {
        sorted[sorted.len() / 2]
    }
}

/// Whether an order is a buy order on PC in the "en" region.
pub fn order_is_candidate(o: &Order) -> (r: bool)
    ensures
        r == is_candidate(*o),
{
    let en = "en";
    proof {
        reveal_strlit("en");
        assert(en@ =~= seq!['e', 'n']);
    }
    o.platform == Platform::Pc && o.order_type == OrderType::Buy && same_text(
        o.region.as_str(),
        en,
    )
}

/// The prices that the aggregate is taken over: of the buy orders on PC in
/// the "en" region, those of users that are not offline when there are more
/// than three of them, else all.
pub fn select_prices(orders: &Vec<Order>) -> (r: Vec<u32>)
    ensures
        r@ == preferred_prices(orders@),
{
    let mut all: Vec<u32> = Vec::new();
    let mut online: Vec<u32> = Vec::new();
    let mut i: usize = 0;
    while i < orders.len()
        invariant
            i <= orders@.len(),
            all@ == candidate_prices(orders@.take(i as int), false),
            online@ == candidate_prices(orders@.take(i as int), true),
        decreases orders@.len() - i,
    {
        let o = &orders[i];
        assert(orders@.take(i + 1).drop_last() =~= orders@.take(i as int));
        if order_is_candidate(o) {
            all.push(o.platinum);
            if o.user.status != UserStatus::Offline {
                online.push(o.platinum);
            }
        }
        i = i + 1;
    }
    assert(orders@.take(i as int) =~= orders@);
    if online.len() > 3 {
        online
    } else {
        all
    }
}

/// The price of an item from its live orders: the upper median of the
/// preferred prices, 0 when there are none.
pub fn price_of_orders(orders: &Vec<Order>) -> (r: u32)
    ensures
        r == order_price(orders@),
{
    let prices = select_prices(orders);
    median_of_prices(&prices)
}

} // verus!
