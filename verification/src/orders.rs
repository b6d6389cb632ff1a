//! What the program is asked to do with orders.
use crate::types::{MarketId, MarketType, PositionDirection};
use vstd::prelude::*;

verus! {

/// The parameters of a new order that transactions depend on.
///
/// `slot` is the order's index in the caller's own list, by which the caller finds the parameters
/// that are not read here.
#[derive(Clone, Copy, Debug, PartialEq, Eq, Structural)]
pub struct OrderParams {
    pub slot: usize,
    pub market_index: u16,
    pub market_type: MarketType,
    pub direction: PositionDirection,
    pub base_asset_amount: u64,
    pub price: u64,
    pub max_ts: Option<i64>,
    pub trigger_price: Option<u64>,
    pub oracle_price_offset: Option<i32>,
    pub auction_duration: Option<u8>,
    pub auction_start_price: Option<i64>,
    pub auction_end_price: Option<i64>,
}

impl OrderParams {
    /// The market of the order.
    pub open spec fn market(self) -> MarketId {
        MarketId { index: self.market_index, kind: self.market_type }
    }
}

/// The parameters of an order that a modification sets. Those that are not here keep the program's
/// defaults.
#[derive(Clone, Copy, Debug, PartialEq, Eq, Structural)]
pub struct ModifyOrderParams {
    pub direction: Option<PositionDirection>,
    pub base_asset_amount: Option<u64>,
    pub price: Option<u64>,
    pub max_ts: Option<i64>,
    pub trigger_price: Option<u64>,
    pub oracle_price_offset: Option<i32>,
    pub auction_duration: Option<u8>,
    pub auction_start_price: Option<i64>,
    pub auction_end_price: Option<i64>,
}

/// The modification that gives an order new parameters: direction, amount and price always, the
/// rest where the parameters have them.
pub open spec fn modification(params: OrderParams) -> ModifyOrderParams {
    ModifyOrderParams {
        direction: Some(params.direction),
        base_asset_amount: Some(params.base_asset_amount),
        price: Some(params.price),
        max_ts: params.max_ts,
        trigger_price: params.trigger_price,
        oracle_price_offset: params.oracle_price_offset,
        auction_duration: params.auction_duration,
        auction_start_price: params.auction_start_price,
        auction_end_price: params.auction_end_price,
    }
}

impl ModifyOrderParams {
    /// The modification that gives an order new parameters.
    pub fn from_params(params: &OrderParams) -> (r: ModifyOrderParams)
        ensures
            r == modification(*params),
            r.direction == Some(params.direction),
            r.base_asset_amount == Some(params.base_asset_amount),
            r.price == Some(params.price),
            r.max_ts == params.max_ts,
            r.trigger_price == params.trigger_price,
            r.oracle_price_offset == params.oracle_price_offset,
            r.auction_duration == params.auction_duration,
            r.auction_start_price == params.auction_start_price,
            r.auction_end_price == params.auction_end_price,
    {
        ModifyOrderParams {
            direction: Some(params.direction),
            base_asset_amount: Some(params.base_asset_amount),
            price: Some(params.price),
            max_ts: params.max_ts,
            trigger_price: params.trigger_price,
            oracle_price_offset: params.oracle_price_offset,
            auction_duration: params.auction_duration,
            auction_start_price: params.auction_start_price,
            auction_end_price: params.auction_end_price,
        }
    }
}

/// The arguments of an instruction of the program.
#[derive(Debug, PartialEq, Eq)]
pub enum InstructionArgs {
    PlaceOrders { params: Vec<OrderParams> },
    CancelOrders {
        market_index: Option<u16>,
        market_type: Option<MarketType>,
        direction: Option<PositionDirection>,
    },
    CancelOrdersByIds { order_ids: Vec<u32> },
    ModifyOrder { order_id: Option<u32>, modify_order_params: ModifyOrderParams },
}

/// What the arguments of an instruction hold.
#[verifier::ext_equal]
pub enum InstructionArgsData {
    PlaceOrders { params: Seq<OrderParams> },
    CancelOrders {
        market_index: Option<u16>,
        market_type: Option<MarketType>,
        direction: Option<PositionDirection>,
    },
    CancelOrdersByIds { order_ids: Seq<u32> },
    ModifyOrder { order_id: Option<u32>, modify_order_params: ModifyOrderParams },
}

impl View for InstructionArgs {
    type V = InstructionArgsData;

    open spec fn view(&self) -> InstructionArgsData {
        match *self {
            InstructionArgs::PlaceOrders { params } => InstructionArgsData::PlaceOrders {
                params: params@,
            },
            InstructionArgs::CancelOrders { market_index, market_type, direction } => {
                InstructionArgsData::CancelOrders { market_index, market_type, direction }
            },
            InstructionArgs::CancelOrdersByIds { order_ids } => {
                InstructionArgsData::CancelOrdersByIds { order_ids: order_ids@ }
            },
            InstructionArgs::ModifyOrder { order_id, modify_order_params } => {
                InstructionArgsData::ModifyOrder { order_id, modify_order_params }
            },
        }
    }
}

/// A modification sends what the new parameters say: direction, amount and price are always set,
/// and each of the others exactly where the parameters set it, to the same value.
pub proof fn modifications_send_every_parameter(params: OrderParams)
    ensures
        ({
            let sent = modification(params);
            &&& sent.direction == Some(params.direction)
            &&& sent.base_asset_amount == Some(params.base_asset_amount)
            &&& sent.price == Some(params.price)
            &&& sent.max_ts == params.max_ts
            &&& sent.trigger_price == params.trigger_price
            &&& sent.oracle_price_offset == params.oracle_price_offset
            &&& sent.auction_duration == params.auction_duration
            &&& sent.auction_start_price == params.auction_start_price
            &&& sent.auction_end_price == params.auction_end_price
        }),
{
}

/// Two sets of parameters give the same modification only where they agree in everything that can
/// be modified: direction, amount, price, expiry, trigger price, oracle offset and auction.
pub proof fn different_parameters_are_sent_differently(a: OrderParams, b: OrderParams)
    ensures
        modification(a) == modification(b) <==> {
            &&& a.direction == b.direction
            &&& a.base_asset_amount == b.base_asset_amount
            &&& a.price == b.price
            &&& a.max_ts == b.max_ts
            &&& a.trigger_price == b.trigger_price
            &&& a.oracle_price_offset == b.oracle_price_offset
            &&& a.auction_duration == b.auction_duration
            &&& a.auction_start_price == b.auction_start_price
            &&& a.auction_end_price == b.auction_end_price
        },
{
}

/// The market of an order is the one that its parameters name, by index and by kind.
pub proof fn orders_are_in_the_market_they_name(params: OrderParams)
    ensures
        params.market().index == params.market_index,
        params.market().kind == params.market_type,
{
}

/// What arguments are said to hold is all that they hold: arguments that are said to hold the same
/// are of one kind, and agree in every order, id and option.
pub proof fn arguments_hold_what_they_are_said_to(args: InstructionArgs)
    ensures
        match args {
            InstructionArgs::PlaceOrders { params } => args@
                == (InstructionArgsData::PlaceOrders { params: params@ }),
            InstructionArgs::CancelOrders { market_index, market_type, direction } => args@
                == (InstructionArgsData::CancelOrders { market_index, market_type, direction }),
            InstructionArgs::CancelOrdersByIds { order_ids } => args@
                == (InstructionArgsData::CancelOrdersByIds { order_ids: order_ids@ }),
            InstructionArgs::ModifyOrder { order_id, modify_order_params } => args@
                == (InstructionArgsData::ModifyOrder { order_id, modify_order_params }),
        },
{
}

} // verus!
