//! The parts of a user account that queries and transactions depend on.
//!
//! Each record carries its `slot`, its index in the account's own table, by which a caller that
//! holds the raw account finds the whole record again.
use vstd::prelude::*;

verus! {

/// The life cycle of an order.
#[derive(Clone, Copy, Debug, PartialEq, Eq, Structural)]
pub enum OrderStatus {
    Init,
    Open,
    Filled,
    Canceled,
}

/// An order record of a user account.
#[derive(Clone, Copy, Debug, PartialEq, Eq, Structural)]
pub struct Order {
    pub slot: usize,
    /// The id that the program gave the order.
    pub order_id: u32,
    /// The id that the user gave the order.
    pub user_order_id: u8,
    pub status: OrderStatus,
}

/// A spot position record of a user account.
#[derive(Clone, Copy, Debug, PartialEq, Eq, Structural)]
pub struct SpotPosition {
    pub slot: usize,
    pub market_index: u16,
    /// Whether the program counts the record as free.
    pub available: bool,
}

/// A perp position record of a user account.
#[derive(Clone, Copy, Debug, PartialEq, Eq, Structural)]
pub struct PerpPosition {
    pub slot: usize,
    pub market_index: u16,
    /// Whether the program counts the record as free.
    pub available: bool,
    /// Whether the program counts the record as an open position.
    pub open: bool,
}

/// The data of a user account.
#[derive(Debug, PartialEq, Eq)]
pub struct User {
    pub orders: Vec<Order>,
    pub spot_positions: Vec<SpotPosition>,
    pub perp_positions: Vec<PerpPosition>,
}

/// What a user account holds.
#[verifier::ext_equal]
pub struct UserData {
    pub orders: Seq<Order>,
    pub spot_positions: Seq<SpotPosition>,
    pub perp_positions: Seq<PerpPosition>,
}

impl View for User {
    type V = UserData;

    open spec fn view(&self) -> UserData {
        UserData {
            orders: self.orders@,
            spot_positions: self.spot_positions@,
            perp_positions: self.perp_positions@,
        }
    }
}

/// `r` is the first item that satisfies `p`, or nothing where none does.
pub open spec fn is_first<T>(items: Seq<T>, p: spec_fn(T) -> bool, r: Option<T>) -> bool {
    match r {
        Some(x) => exists|i: int|
            {
                &&& 0 <= i < items.len()
                &&& #[trigger] items[i] == x
                &&& p(x)
                &&& forall|j: int| 0 <= j < i ==> !p(#[trigger] items[j])
            },
        None => forall|i: int| 0 <= i < items.len() ==> !p(#[trigger] items[i]),
    }
}

/// The order is open and has this id.
pub open spec fn has_order_id(order_id: u32) -> spec_fn(Order) -> bool {
    |o: Order| o.status == OrderStatus::Open && o.order_id == order_id
}

/// The order is open and has this user assigned id.
pub open spec fn has_user_order_id(user_order_id: u8) -> spec_fn(Order) -> bool {
    |o: Order| o.status == OrderStatus::Open && o.user_order_id == user_order_id
}

/// The record holds a position in this market.
pub open spec fn spot_in_market(market_index: u16) -> spec_fn(SpotPosition) -> bool {
    |p: SpotPosition| !p.available && p.market_index == market_index
}

/// The record is in use: it holds an open position, or the program does not count it as free.
pub open spec fn perp_in_use(p: PerpPosition) -> bool {
    p.open || !p.available
}

/// The record is in use for this market.
pub open spec fn perp_in_market(market_index: u16) -> spec_fn(PerpPosition) -> bool {
    |p: PerpPosition| perp_in_use(p) && p.market_index == market_index
}

/// The account's records are consistent: the program counts no record as free that holds an open
/// position.
pub open spec fn is_consistent(user: UserData) -> bool {
    forall|i: int|
        0 <= i < user.perp_positions.len() && (#[trigger] user.perp_positions[i]).open
            ==> !user.perp_positions[i].available
}

/// The orders that are open.
pub open spec fn open_orders(orders: Seq<Order>) -> Seq<Order> {
    orders.filter(|o: Order| o.status == OrderStatus::Open)
}

/// The spot records in use.
pub open spec fn active_spot(positions: Seq<SpotPosition>) -> Seq<SpotPosition> {
    positions.filter(|p: SpotPosition| !p.available)
}

/// The open perp positions.
pub open spec fn active_perp(positions: Seq<PerpPosition>) -> Seq<PerpPosition> {
    positions.filter(|p: PerpPosition| p.open)
}

/// The order that a search by id finds is among the open orders.
pub proof fn found_order_is_open(orders: Seq<Order>, order_id: u32, r: Option<Order>)
    requires
        is_first(orders, has_order_id(order_id), r),
    ensures
        r matches Some(o) ==> open_orders(orders).contains(o) && o.order_id == order_id,
{
    if let Some(o) = r {
        let i = choose|i: int|
            {
                &&& 0 <= i < orders.len()
                &&& #[trigger] orders[i] == o
                &&& has_order_id(order_id)(o)
                &&& forall|j: int| 0 <= j < i ==> !has_order_id(order_id)(#[trigger] orders[j])
            };
        lemma_filter_keeps(orders, |o: Order| o.status == OrderStatus::Open, i);
    }
}

/// A search by id finds an order whenever an open order has the id.
pub proof fn open_order_is_found(orders: Seq<Order>, order_id: u32, r: Option<Order>, k: int)
    requires
        is_first(orders, has_order_id(order_id), r),
        0 <= k < open_orders(orders).len(),
        open_orders(orders)[k].order_id == order_id,
    ensures
        r is Some,
{
    let p = |o: Order| o.status == OrderStatus::Open;
    let i = lemma_filter_origin(orders, p, k);
    if r is None {
        assert(!has_order_id(order_id)(orders[i]));
    }
}

/// The order that a search by user assigned id finds is among the open orders.
pub proof fn found_user_order_is_open(orders: Seq<Order>, user_order_id: u8, r: Option<Order>)
    requires
        is_first(orders, has_user_order_id(user_order_id), r),
    ensures
        r matches Some(o) ==> open_orders(orders).contains(o) && o.user_order_id == user_order_id,
{
    if let Some(o) = r {
        let i = choose|i: int|
            {
                &&& 0 <= i < orders.len()
                &&& #[trigger] orders[i] == o
                &&& has_user_order_id(user_order_id)(o)
                &&& forall|j: int|
                    0 <= j < i ==> !has_user_order_id(user_order_id)(#[trigger] orders[j])
            };
        lemma_filter_keeps(orders, |o: Order| o.status == OrderStatus::Open, i);
    }
}

/// A search by user assigned id finds an order whenever an open order has the id.
pub proof fn open_user_order_is_found(
    orders: Seq<Order>,
    user_order_id: u8,
    r: Option<Order>,
    k: int,
)
    requires
        is_first(orders, has_user_order_id(user_order_id), r),
        0 <= k < open_orders(orders).len(),
        open_orders(orders)[k].user_order_id == user_order_id,
    ensures
        r is Some,
{
    let p = |o: Order| o.status == OrderStatus::Open;
    let i = lemma_filter_origin(orders, p, k);
    if r is None {
        assert(!has_user_order_id(user_order_id)(orders[i]));
    }
}

/// The spot record that a search by market finds is an active position in that market.
pub proof fn found_spot_position_is_active(
    positions: Seq<SpotPosition>,
    market_index: u16,
    r: Option<SpotPosition>,
)
    requires
        is_first(positions, spot_in_market(market_index), r),
    ensures
        r matches Some(p) ==> active_spot(positions).contains(p) && p.market_index == market_index,
{
    if let Some(p) = r {
        let i = choose|i: int|
            {
                &&& 0 <= i < positions.len()
                &&& #[trigger] positions[i] == p
                &&& spot_in_market(market_index)(p)
                &&& forall|j: int|
                    0 <= j < i ==> !spot_in_market(market_index)(#[trigger] positions[j])
            };
        lemma_filter_keeps(positions, |p: SpotPosition| !p.available, i);
    }
}

/// A search by market finds an active spot position whenever there is one in the market, and the
/// position itself where it is the only one.
pub proof fn active_spot_position_is_found(
    positions: Seq<SpotPosition>,
    market_index: u16,
    r: Option<SpotPosition>,
    k: int,
)
    requires
        is_first(positions, spot_in_market(market_index), r),
        0 <= k < active_spot(positions).len(),
        active_spot(positions)[k].market_index == market_index,
    ensures
        r matches Some(p) && active_spot(positions).contains(p) && p.market_index == market_index,
        (forall|i: int|
            0 <= i < positions.len() && spot_in_market(market_index)(#[trigger] positions[i])
                ==> positions[i] == active_spot(positions)[k]) ==> r == Some(
            active_spot(positions)[k],
        ),
{
    let p = |p: SpotPosition| !p.available;
    let i = lemma_filter_origin(positions, p, k);
    assert(spot_in_market(market_index)(positions[i]));
    found_spot_position_is_active(positions, market_index, r);
}

/// The perp record that a search by market finds is in use for that market.
pub proof fn found_perp_position_is_in_use(
    positions: Seq<PerpPosition>,
    market_index: u16,
    r: Option<PerpPosition>,
)
    requires
        is_first(positions, perp_in_market(market_index), r),
    ensures
        r matches Some(p) ==> {
            &&& positions.contains(p)
            &&& perp_in_use(p)
            &&& p.market_index == market_index
        },
{
}

/// A search by market finds a record in use whenever there is an open perp position in the market,
/// and the open position itself where it is the only record in use for the market.
pub proof fn active_perp_position_is_found(
    positions: Seq<PerpPosition>,
    market_index: u16,
    r: Option<PerpPosition>,
    k: int,
)
    requires
        is_first(positions, perp_in_market(market_index), r),
        0 <= k < active_perp(positions).len(),
        active_perp(positions)[k].market_index == market_index,
    ensures
        r matches Some(p) && perp_in_use(p) && p.market_index == market_index,
        (forall|i: int|
            0 <= i < positions.len() && perp_in_market(market_index)(#[trigger] positions[i])
                ==> positions[i] == active_perp(positions)[k]) ==> r == Some(
            active_perp(positions)[k],
        ),
{
    let p = |p: PerpPosition| p.open;
    let i = lemma_filter_origin(positions, p, k);
    assert(perp_in_market(market_index)(positions[i]));
}

/// An account none of whose records is in use has no position in any market.
pub proof fn unused_records_are_no_positions(
    user: UserData,
    market_index: u16,
    spot: Option<SpotPosition>,
    perp: Option<PerpPosition>,
)
    requires
        forall|i: int|
            0 <= i < user.spot_positions.len() ==> (#[trigger] user.spot_positions[i]).available,
        forall|i: int|
            0 <= i < user.perp_positions.len() ==> !perp_in_use(#[trigger] user.perp_positions[i]),
        is_first(user.spot_positions, spot_in_market(market_index), spot),
        is_first(user.perp_positions, perp_in_market(market_index), perp),
    ensures
        spot is None,
        perp is None,
{
}

/// There is only one first item.
pub proof fn first_is_unique<T>(
    items: Seq<T>,
    p: spec_fn(T) -> bool,
    a: Option<T>,
    b: Option<T>,
)
    requires
        is_first(items, p, a),
        is_first(items, p, b),
    ensures
        a == b,
{
    if let (Some(x), Some(y)) = (a, b) {
        let i = choose|i: int|
            {
                &&& 0 <= i < items.len()
                &&& #[trigger] items[i] == x
                &&& p(x)
                &&& forall|j: int| 0 <= j < i ==> !p(#[trigger] items[j])
            };
        let k = choose|k: int|
            {
                &&& 0 <= k < items.len()
                &&& #[trigger] items[k] == y
                &&& p(y)
                &&& forall|j: int| 0 <= j < k ==> !p(#[trigger] items[j])
            };
        if i < k {
            assert(!p(items[i]));
        }
        if k < i {
            assert(!p(items[k]));
        }
    }
}

/// The list of open orders keeps the account's order and says of each order whether it is open: one
/// record more adds itself at the end where it is open, whatever else it holds, and nothing
/// elsewhere.
pub proof fn open_orders_are_listed_one_by_one(orders: Seq<Order>, order: Order)
    ensures
        open_orders(Seq::empty()) == Seq::<Order>::empty(),
        order.status == OrderStatus::Open ==> open_orders(orders.push(order)) == open_orders(
            orders,
        ).push(order),
        order.status != OrderStatus::Open ==> open_orders(orders.push(order)) == open_orders(
            orders,
        ),
{
    reveal(Seq::filter);
    assert(orders.push(order).drop_last() =~= orders);
}

/// The same of active spot positions: one record more is listed where it is not free, in whatever
/// market.
pub proof fn active_spot_positions_are_listed_one_by_one(
    positions: Seq<SpotPosition>,
    position: SpotPosition,
)
    ensures
        active_spot(Seq::empty()) == Seq::<SpotPosition>::empty(),
        !position.available ==> active_spot(positions.push(position)) == active_spot(
            positions,
        ).push(position),
        position.available ==> active_spot(positions.push(position)) == active_spot(positions),
{
    reveal(Seq::filter);
    assert(positions.push(position).drop_last() =~= positions);
}

/// The same of active perp positions: one record more is listed where it is an open position, in
/// whatever market.
pub proof fn active_perp_positions_are_listed_one_by_one(
    positions: Seq<PerpPosition>,
    position: PerpPosition,
)
    ensures
        active_perp(Seq::empty()) == Seq::<PerpPosition>::empty(),
        position.open ==> active_perp(positions.push(position)) == active_perp(positions).push(
            position,
        ),
        !position.open ==> active_perp(positions.push(position)) == active_perp(positions),
{
    reveal(Seq::filter);
    assert(positions.push(position).drop_last() =~= positions);
}

/// An order is among the open orders exactly where it is an order of the account and is open.
pub proof fn listed_orders_are_the_open_ones(orders: Seq<Order>, order: Order)
    ensures
        open_orders(orders).contains(order) <==> orders.contains(order) && order.status
            == OrderStatus::Open,
{
    let p = |o: Order| o.status == OrderStatus::Open;
    if open_orders(orders).contains(order) {
        let k = choose|k: int| 0 <= k < open_orders(orders).len()
            && open_orders(orders)[k] == order;
        let i = lemma_filter_origin(orders, p, k);
        assert(orders[i] == order);
    }
    if orders.contains(order) && order.status == OrderStatus::Open {
        let i = choose|i: int| 0 <= i < orders.len() && orders[i] == order;
        lemma_filter_keeps(orders, p, i);
    }
}

/// A record is among the active positions exactly where it is a record of the account and, for a
/// spot record, is not free, and for a perp record, is an open position.
pub proof fn listed_positions_are_the_active_ones(
    user: UserData,
    spot: SpotPosition,
    perp: PerpPosition,
)
    ensures
        active_spot(user.spot_positions).contains(spot) <==> user.spot_positions.contains(spot)
            && !spot.available,
        active_perp(user.perp_positions).contains(perp) <==> user.perp_positions.contains(perp)
            && perp.open,
{
    let spots = user.spot_positions;
    let perps = user.perp_positions;
    let p = |p: SpotPosition| !p.available;
    let q = |p: PerpPosition| p.open;
    if active_spot(spots).contains(spot) {
        let k = choose|k: int| 0 <= k < active_spot(spots).len() && active_spot(spots)[k] == spot;
        let i = lemma_filter_origin(spots, p, k);
        assert(spots[i] == spot);
    }
    if spots.contains(spot) && !spot.available {
        let i = choose|i: int| 0 <= i < spots.len() && spots[i] == spot;
        lemma_filter_keeps(spots, p, i);
    }
    if active_perp(perps).contains(perp) {
        let k = choose|k: int| 0 <= k < active_perp(perps).len() && active_perp(perps)[k] == perp;
        let i = lemma_filter_origin(perps, q, k);
        assert(perps[i] == perp);
    }
    if perps.contains(perp) && perp.open {
        let i = choose|i: int| 0 <= i < perps.len() && perps[i] == perp;
        lemma_filter_keeps(perps, q, i);
    }
}

/// A search by id finds the first order that is open and has the id, and nothing only where no
/// order of the account is open and has it.
pub proof fn search_by_id_finds_the_first_open_order(
    orders: Seq<Order>,
    order_id: u32,
    r: Option<Order>,
    i: int,
)
    requires
        is_first(orders, has_order_id(order_id), r),
    ensures
        0 <= i < orders.len() && orders[i].status == OrderStatus::Open
            && orders[i].order_id == order_id && (forall|j: int|
            0 <= j < i ==> !((#[trigger] orders[j]).status == OrderStatus::Open
                && orders[j].order_id == order_id)) ==> r == Some(
            orders[i],
        ),
        r is None <==> forall|j: int|
            0 <= j < orders.len() ==> !((#[trigger] orders[j]).status == OrderStatus::Open
                && orders[j].order_id == order_id),
{
    let p = has_order_id(order_id);
    if 0 <= i < orders.len() && orders[i].status == OrderStatus::Open
        && orders[i].order_id == order_id {
        assert(p(orders[i]));
        if let Some(x) = r {
            let k = choose|k: int|
                {
                    &&& 0 <= k < orders.len()
                    &&& #[trigger] orders[k] == x
                    &&& p(x)
                    &&& forall|j: int| 0 <= j < k ==> !p(#[trigger] orders[j])
                };
            if i < k {
                assert(!p(orders[i]));
            }
            if k < i {
                assert(p(orders[k]));
            }
        }
    }
    if r is None {
        assert forall|j: int| 0 <= j < orders.len() implies !(
        (#[trigger] orders[j]).status == OrderStatus::Open
            && orders[j].order_id == order_id) by {
            assert(!p(orders[j]));
        }
    }
}

/// A search by user assigned id finds the first order that is open and has the id, and nothing only
/// where no order of the account is open and has it.
pub proof fn search_by_user_id_finds_the_first_open_order(
    orders: Seq<Order>,
    user_order_id: u8,
    r: Option<Order>,
    i: int,
)
    requires
        is_first(orders, has_user_order_id(user_order_id), r),
    ensures
        0 <= i < orders.len() && orders[i].status == OrderStatus::Open
            && orders[i].user_order_id == user_order_id && (forall|j: int|
            0 <= j < i ==> !((#[trigger] orders[j]).status == OrderStatus::Open
                && orders[j].user_order_id == user_order_id)) ==> r == Some(
            orders[i],
        ),
        r is None <==> forall|j: int|
            0 <= j < orders.len() ==> !((#[trigger] orders[j]).status == OrderStatus::Open
                && orders[j].user_order_id == user_order_id),
{
    let p = has_user_order_id(user_order_id);
    if 0 <= i < orders.len() && orders[i].status == OrderStatus::Open
        && orders[i].user_order_id == user_order_id {
        assert(p(orders[i]));
        if let Some(x) = r {
            let k = choose|k: int|
                {
                    &&& 0 <= k < orders.len()
                    &&& #[trigger] orders[k] == x
                    &&& p(x)
                    &&& forall|j: int| 0 <= j < k ==> !p(#[trigger] orders[j])
                };
            if i < k {
                assert(!p(orders[i]));
            }
            if k < i {
                assert(p(orders[k]));
            }
        }
    }
    if r is None {
        assert forall|j: int| 0 <= j < orders.len() implies !(
        (#[trigger] orders[j]).status == OrderStatus::Open
            && orders[j].user_order_id == user_order_id) by {
            assert(!p(orders[j]));
        }
    }
}

/// A search by market finds the first spot record of the market that is not free, and nothing only
/// where there is none.
pub proof fn search_by_market_finds_the_first_spot_position(
    positions: Seq<SpotPosition>,
    market_index: u16,
    r: Option<SpotPosition>,
    i: int,
)
    requires
        is_first(positions, spot_in_market(market_index), r),
    ensures
        0 <= i < positions.len() && !positions[i].available
            && positions[i].market_index == market_index && (forall|j: int|
            0 <= j < i ==> !(!(#[trigger] positions[j]).available
                && positions[j].market_index == market_index)) ==> r == Some(
            positions[i],
        ),
        r is None <==> forall|j: int|
            0 <= j < positions.len() ==> !(!(#[trigger] positions[j]).available
                && positions[j].market_index == market_index),
{
    let p = spot_in_market(market_index);
    if 0 <= i < positions.len() && !positions[i].available
        && positions[i].market_index == market_index {
        assert(p(positions[i]));
        if let Some(x) = r {
            let k = choose|k: int|
                {
                    &&& 0 <= k < positions.len()
                    &&& #[trigger] positions[k] == x
                    &&& p(x)
                    &&& forall|j: int| 0 <= j < k ==> !p(#[trigger] positions[j])
                };
            if i < k {
                assert(!p(positions[i]));
            }
            if k < i {
                assert(p(positions[k]));
            }
        }
    }
    if r is None {
        assert forall|j: int| 0 <= j < positions.len() implies !(
        !(#[trigger] positions[j]).available
            && positions[j].market_index == market_index) by {
            assert(!p(positions[j]));
        }
    }
}

/// A search by market finds the first perp record of the market that is an open position or is not
/// free, and nothing only where there is none.
pub proof fn search_by_market_finds_the_first_perp_position(
    positions: Seq<PerpPosition>,
    market_index: u16,
    r: Option<PerpPosition>,
    i: int,
)
    requires
        is_first(positions, perp_in_market(market_index), r),
    ensures
        0 <= i < positions.len() && (positions[i].open || !positions[i].available)
            && positions[i].market_index == market_index && (forall|j: int|
            0 <= j < i ==> !(((#[trigger] positions[j]).open || !positions[j].available)
                && positions[j].market_index == market_index)) ==> r == Some(
            positions[i],
        ),
        r is None <==> forall|j: int|
            0 <= j < positions.len() ==> !(((#[trigger] positions[j]).open
                || !positions[j].available) && positions[j].market_index == market_index),
{
    let p = perp_in_market(market_index);
    if 0 <= i < positions.len() && (positions[i].open || !positions[i].available)
        && positions[i].market_index == market_index {
        assert(p(positions[i]));
        if let Some(x) = r {
            let k = choose|k: int|
                {
                    &&& 0 <= k < positions.len()
                    &&& #[trigger] positions[k] == x
                    &&& p(x)
                    &&& forall|j: int| 0 <= j < k ==> !p(#[trigger] positions[j])
                };
            if i < k {
                assert(!p(positions[i]));
            }
            if k < i {
                assert(p(positions[k]));
            }
        }
    }
    if r is None {
        assert forall|j: int| 0 <= j < positions.len() implies !(
        ((#[trigger] positions[j]).open || !positions[j].available)
            && positions[j].market_index == market_index) by {
            assert(!p(positions[j]));
        }
    }
}

/// What an account is said to hold is all of its records.
pub proof fn accounts_hold_all_their_records(user: User)
    ensures
        user@.orders == user.orders@,
        user@.spot_positions == user.spot_positions@,
        user@.perp_positions == user.perp_positions@,
{
}

/// A filter keeps every item that satisfies it.
pub proof fn lemma_filter_keeps<T>(items: Seq<T>, p: spec_fn(T) -> bool, i: int)
    requires
        0 <= i < items.len(),
        p(items[i]),
    ensures
        items.filter(p).contains(items[i]),
    decreases items.len(),
{
    reveal(Seq::filter);
    let less = items.drop_last();
    if i == items.len() - 1 {
        assert(items.filter(p)[less.filter(p).len() as int] == items[i]);
    } else {
        assert(less[i] == items[i]);
        lemma_filter_keeps(less, p, i);
        let k = choose|k: int| 0 <= k < less.filter(p).len() && less.filter(p)[k] == items[i];
        assert(items.filter(p)[k] == items[i]);
    }
}

/// What a filter keeps was there and satisfies it.
pub proof fn lemma_filter_origin<T>(items: Seq<T>, p: spec_fn(T) -> bool, k: int) -> (i: int)
    requires
        0 <= k < items.filter(p).len(),
    ensures
        0 <= i < items.len(),
        items[i] == items.filter(p)[k],
        p(items[i]),
    decreases items.len(),
{
    reveal(Seq::filter);
    let less = items.drop_last();
    if k < less.filter(p).len() {
        let i = lemma_filter_origin(less, p, k);
        assert(less[i] == items[i]);
        i
    } else {
        items.len() - 1
    }
}

impl User {
    /// The open order with an id.
    pub fn order_by_id(&self, order_id: u32) -> (r: Option<Order>)
        ensures
            is_first(self@.orders, has_order_id(order_id), r),
    {
        let mut i: usize = 0;
        while i < self.orders.len()
            invariant
                0 <= i <= self@.orders.len(),
                forall|j: int| 0 <= j < i ==> !has_order_id(order_id)(#[trigger] self@.orders[j]),
            decreases self@.orders.len() - i,
        {
            let order: Order = self.orders[i];
            if order.status == OrderStatus::Open && order.order_id == order_id {
                assert(self@.orders[i as int] == order);
                return Some(order);
            }
            i += 1;
        }
        None
    }

    /// The open order with a user assigned id.
    pub fn order_by_user_id(&self, user_order_id: u8) -> (r: Option<Order>)
        ensures
            is_first(self@.orders, has_user_order_id(user_order_id), r),
    {
        let mut i: usize = 0;
        while i < self.orders.len()
            invariant
                0 <= i <= self@.orders.len(),
                forall|j: int|
                    0 <= j < i ==> !has_user_order_id(user_order_id)(#[trigger] self@.orders[j]),
            decreases self@.orders.len() - i,
        {
            let order: Order = self.orders[i];
            if order.status == OrderStatus::Open && order.user_order_id == user_order_id {
                assert(self@.orders[i as int] == order);
                return Some(order);
            }
            i += 1;
        }
        None
    }

    /// All open orders, in the account's order.
    pub fn open_orders(&self) -> (r: Vec<Order>)
        ensures
            r@ == open_orders(self@.orders),
            forall|i: int|
                0 <= i < self.orders@.len() && (#[trigger] self.orders@[i]).status
                    == OrderStatus::Open ==> r@.contains(self.orders@[i]),
            forall|k: int|
                0 <= k < r@.len() ==> self.orders@.contains(#[trigger] r@[k]) && r@[k].status
                    == OrderStatus::Open,
    {
        let mut out: Vec<Order> = Vec::new();
        let mut i: usize = 0;
        assert(open_orders(self@.orders.take(0)) =~= Seq::empty()) by {
            reveal(Seq::filter);
        }
        while i < self.orders.len()
            invariant
                0 <= i <= self@.orders.len(),
                out@ == open_orders(self@.orders.take(i as int)),
            decreases self@.orders.len() - i,
        {
            proof {
                reveal(Seq::filter);
                assert(self@.orders.take(i + 1).drop_last() =~= self@.orders.take(i as int));
            }
            if self.orders[i].status == OrderStatus::Open {
                out.push(self.orders[i]);
            }
            i += 1;
        }
        assert(self@.orders.take(i as int) =~= self@.orders);
        proof {
            assert forall|order: Order| #[trigger] out@.contains(order) <==> self.orders@.contains(
                order,
            ) && order.status == OrderStatus::Open by {
                listed_orders_are_the_open_ones(self@.orders, order);
            }
            assert forall|k: int| 0 <= k < out@.len() implies self.orders@.contains(
                #[trigger] out@[k],
            ) && out@[k].status == OrderStatus::Open by {
                assert(out@.contains(out@[k]));
            }
        }
        out
    }

    /// All spot records in use, in the account's order.
    pub fn active_spot_positions(&self) -> (r: Vec<SpotPosition>)
        ensures
            r@ == active_spot(self@.spot_positions),
            forall|i: int|
                0 <= i < self.spot_positions@.len() && !(
                #[trigger] self.spot_positions@[i]).available ==> r@.contains(
                    self.spot_positions@[i],
                ),
            forall|k: int|
                0 <= k < r@.len() ==> self.spot_positions@.contains(#[trigger] r@[k])
                    && !r@[k].available,
    {
        let mut out: Vec<SpotPosition> = Vec::new();
        let mut i: usize = 0;
        assert(active_spot(self@.spot_positions.take(0)) =~= Seq::empty()) by {
            reveal(Seq::filter);
        }
        while i < self.spot_positions.len()
            invariant
                0 <= i <= self@.spot_positions.len(),
                out@ == active_spot(self@.spot_positions.take(i as int)),
            decreases self@.spot_positions.len() - i,
        {
            proof {
                reveal(Seq::filter);
                assert(self@.spot_positions.take(i + 1).drop_last() =~= self@.spot_positions.take(
                    i as int,
                ));
            }
            if !self.spot_positions[i].available {
                out.push(self.spot_positions[i]);
            }
            i += 1;
        }
        assert(self@.spot_positions.take(i as int) =~= self@.spot_positions);
        proof {
            let perp = PerpPosition { slot: 0, market_index: 0, available: false, open: false };
            assert forall|p: SpotPosition| #[trigger] out@.contains(p)
                <==> self.spot_positions@.contains(p) && !p.available by {
                listed_positions_are_the_active_ones(self@, p, perp);
            }
            assert forall|k: int| 0 <= k < out@.len() implies self.spot_positions@.contains(
                #[trigger] out@[k],
            ) && !out@[k].available by {
                assert(out@.contains(out@[k]));
            }
        }
        out
    }

    /// All open perp positions, in the account's order.
    pub fn active_perp_positions(&self) -> (r: Vec<PerpPosition>)
        ensures
            r@ == active_perp(self@.perp_positions),
            forall|i: int|
                0 <= i < self.perp_positions@.len() && (#[trigger] self.perp_positions@[i]).open
                    ==> r@.contains(self.perp_positions@[i]),
            forall|k: int|
                0 <= k < r@.len() ==> self.perp_positions@.contains(#[trigger] r@[k])
                    && r@[k].open,
    {
        let mut out: Vec<PerpPosition> = Vec::new();
        let mut i: usize = 0;
        assert(active_perp(self@.perp_positions.take(0)) =~= Seq::empty()) by {
            reveal(Seq::filter);
        }
        while i < self.perp_positions.len()
            invariant
                0 <= i <= self@.perp_positions.len(),
                out@ == active_perp(self@.perp_positions.take(i as int)),
            decreases self@.perp_positions.len() - i,
        {
            proof {
                reveal(Seq::filter);
                assert(self@.perp_positions.take(i + 1).drop_last() =~= self@.perp_positions.take(
                    i as int,
                ));
            }
            if self.perp_positions[i].open {
                out.push(self.perp_positions[i]);
            }
            i += 1;
        }
        assert(self@.perp_positions.take(i as int) =~= self@.perp_positions);
        proof {
            let spot = SpotPosition { slot: 0, market_index: 0, available: false };
            assert forall|p: PerpPosition| #[trigger] out@.contains(p)
                <==> self.perp_positions@.contains(p) && p.open by {
                listed_positions_are_the_active_ones(self@, spot, p);
            }
            assert forall|k: int| 0 <= k < out@.len() implies self.perp_positions@.contains(
                #[trigger] out@[k],
            ) && out@[k].open by {
                assert(out@.contains(out@[k]));
            }
        }
        out
    }

    /// The first spot position in a market.
    pub fn spot_position(&self, market_index: u16) -> (r: Option<SpotPosition>)
        ensures
            is_first(self@.spot_positions, spot_in_market(market_index), r),
    {
        let mut i: usize = 0;
        while i < self.spot_positions.len()
            invariant
                0 <= i <= self@.spot_positions.len(),
                forall|j: int|
                    0 <= j < i
                        ==> !spot_in_market(market_index)(#[trigger] self@.spot_positions[j]),
            decreases self@.spot_positions.len() - i,
        {
            let position: SpotPosition = self.spot_positions[i];
            if !position.available && position.market_index == market_index {
                assert(self@.spot_positions[i as int] == position);
                return Some(position);
            }
            i += 1;
        }
        None
    }

    /// The first perp record in use for a market.
    pub fn perp_position(&self, market_index: u16) -> (r: Option<PerpPosition>)
        ensures
            is_first(self@.perp_positions, perp_in_market(market_index), r),
    {
        let mut i: usize = 0;
        while i < self.perp_positions.len()
            invariant
                0 <= i <= self@.perp_positions.len(),
                forall|j: int|
                    0 <= j < i
                        ==> !perp_in_market(market_index)(#[trigger] self@.perp_positions[j]),
            decreases self@.perp_positions.len() - i,
        {
            let position: PerpPosition = self.perp_positions[i];
            if (position.open || !position.available) && position.market_index == market_index {
                assert(self@.perp_positions[i as int] == position);
                return Some(position);
            }
            i += 1;
        }
        None
    }

    /// A copy of the account data.
    pub fn duplicate(&self) -> (r: User)
        ensures
            r@ == self@,
            r.orders@ == self.orders@,
            r.spot_positions@ == self.spot_positions@,
            r.perp_positions@ == self.perp_positions@,
    {
        let orders: Vec<Order> = self.orders.clone();
        let spot_positions: Vec<SpotPosition> = self.spot_positions.clone();
        let perp_positions: Vec<PerpPosition> = self.perp_positions.clone();
        assert(orders@ =~= self.orders@);
        assert(spot_positions@ =~= self.spot_positions@);
        assert(perp_positions@ =~= self.perp_positions@);
        User { orders, spot_positions, perp_positions }
    }
}

} // verus!
