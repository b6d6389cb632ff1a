//! Composable transactions for the program.
use crate::account_laws::{instructions_need_the_markets_they_involve, involves};
use crate::accounts::{
    build_accounts, metas, remaining_accounts, requests, supported, supports, AccountList,
    BaseAccounts,
};
use crate::constants::{program_id, state_account, MarketTable, PROGRAM_ID, STATE_ACCOUNT};
use crate::orders::{
    modification, InstructionArgs, InstructionArgsData, ModifyOrderParams, OrderParams,
};
use crate::pubkey::Pubkey;
use crate::remaining::AccountMeta;
use crate::solana::{new_with_payer, transaction_data, transaction_with_payer};
use crate::transaction::{
    blank, built_transactions_wait_for_their_signers, check_compiles, compiles, is_built,
    is_compiled, only_asks, raw_views, requires_signature_of, shape, signable, wire_sized,
    RawInstruction, RawInstructionData, TransactionData, MAX_WIRE_LEN,
};
use crate::types::{MarketId, MarketType, PositionDirection};
use crate::user::{User, UserData};
use crate::wallet::{Wallet, WalletData};
use solana_sdk::transaction::Transaction;
use vstd::prelude::*;

verus! {

/// An instruction of the program, before the program's own interface encodes it.
#[derive(Debug, PartialEq, Eq)]
pub struct Instruction {
    pub program_id: Pubkey,
    /// The accounts that the instruction names for itself.
    pub base: BaseAccounts,
    /// The accounts that follow.
    pub remaining: Vec<AccountMeta>,
    pub args: InstructionArgs,
}

/// What an instruction holds.
#[verifier::ext_equal]
pub struct InstructionData {
    pub program_id: Pubkey,
    pub base: BaseAccounts,
    pub remaining: Seq<AccountMeta>,
    pub args: InstructionArgsData,
}

impl View for Instruction {
    type V = InstructionData;

    open spec fn view(&self) -> InstructionData {
        InstructionData {
            program_id: self.program_id,
            base: self.base,
            remaining: self.remaining@,
            args: self.args@,
        }
    }
}

/// How the program's interface encodes one instruction: the metas of its own accounts, and its
/// arguments as bytes.
#[derive(Debug, PartialEq, Eq)]
pub struct Encoding {
    pub base: Vec<AccountMeta>,
    pub data: Vec<u8>,
}

/// What an encoding holds.
#[verifier::ext_equal]
pub struct EncodingData {
    pub base: Seq<AccountMeta>,
    pub data: Seq<u8>,
}

impl View for Encoding {
    type V = EncodingData;

    open spec fn view(&self) -> EncodingData {
        EncodingData { base: self.base@, data: self.data@ }
    }
}

/// An encoded instruction: its own accounts, then those that follow.
pub open spec fn encoded(ix: InstructionData, encoding: EncodingData) -> RawInstructionData {
    RawInstructionData {
        program_id: ix.program_id,
        accounts: encoding.base + ix.remaining,
        data: encoding.data,
    }
}

/// Each instruction with its encoding.
pub open spec fn encoded_all(
    ixs: Seq<InstructionData>,
    encodings: Seq<EncodingData>,
) -> Seq<RawInstructionData> {
    Seq::new(ixs.len(), |i: int| encoded(ixs[i], encodings[i]))
}

/// What each encoding holds.
pub open spec fn encoding_views(encodings: Seq<Encoding>) -> Seq<EncodingData> {
    encodings.map_values(|e: Encoding| e@)
}

/// What a transaction in the making is made from.
pub struct BuilderData {
    pub wallet: WalletData,
    pub user: UserData,
    pub table: MarketTable,
    pub ixs: Seq<InstructionData>,
}

/// The accounts that order placement and modification name for themselves.
pub open spec fn place_accounts(wallet: WalletData) -> BaseAccounts {
    BaseAccounts::PlaceOrder {
        state: Pubkey { bytes: STATE_ACCOUNT },
        authority: wallet.authority,
        user: wallet.user,
    }
}

/// The accounts that order cancellation names for itself.
pub open spec fn cancel_accounts(wallet: WalletData) -> BaseAccounts {
    BaseAccounts::CancelOrder {
        state: Pubkey { bytes: STATE_ACCOUNT },
        authority: wallet.authority,
        user: wallet.user,
    }
}

/// The market of each order.
pub open spec fn order_markets(orders: Seq<OrderParams>) -> Seq<MarketId> {
    orders.map_values(|o: OrderParams| o.market())
}

impl BuilderData {
    /// An instruction that reads `markets` can be built for this wallet and user.
    pub open spec fn supports(self, markets: Seq<MarketId>) -> bool {
        supported(requests(self.user, markets, Seq::empty()), self.wallet.context, self.table)
    }

    /// The instruction with own accounts `base` and arguments `args` that reads `markets`.
    pub open spec fn instruction(
        self,
        base: BaseAccounts,
        markets: Seq<MarketId>,
        args: InstructionArgsData,
    ) -> InstructionData {
        InstructionData {
            program_id: Pubkey { bytes: PROGRAM_ID },
            base,
            remaining: metas(
                remaining_accounts(
                    self.wallet.context,
                    self.user,
                    markets,
                    Seq::empty(),
                    self.table,
                ),
            ),
            args,
        }
    }

    /// One instruction more.
    pub open spec fn with(self, ix: InstructionData) -> BuilderData {
        BuilderData { ixs: self.ixs.push(ix), ..self }
    }

    /// More instructions.
    pub open spec fn with_all(self, ixs: Seq<InstructionData>) -> BuilderData {
        BuilderData { ixs: self.ixs + ixs, ..self }
    }

    /// The instruction that places orders.
    pub open spec fn place_orders(self, orders: Seq<OrderParams>) -> InstructionData {
        self.instruction(
            place_accounts(self.wallet),
            order_markets(orders),
            InstructionArgsData::PlaceOrders { params: orders },
        )
    }

    /// The instruction that cancels all orders.
    pub open spec fn cancel_all_orders(self) -> InstructionData {
        self.instruction(
            cancel_accounts(self.wallet),
            Seq::empty(),
            InstructionArgsData::CancelOrders {
                market_index: None,
                market_type: None,
                direction: None,
            },
        )
    }

    /// The instruction that cancels the orders of a market, of one direction or of both.
    pub open spec fn cancel_orders(
        self,
        market: (u16, MarketType),
        direction: Option<PositionDirection>,
    ) -> InstructionData {
        self.instruction(
            cancel_accounts(self.wallet),
            seq![MarketId { index: market.0, kind: market.1 }],
            InstructionArgsData::CancelOrders {
                market_index: Some(market.0),
                market_type: Some(market.1),
                direction,
            },
        )
    }

    /// The instruction that cancels orders by their ids.
    pub open spec fn cancel_orders_by_id(self, order_ids: Seq<u32>) -> InstructionData {
        self.instruction(
            cancel_accounts(self.wallet),
            Seq::empty(),
            InstructionArgsData::CancelOrdersByIds { order_ids },
        )
    }

    /// The instruction that modifies an order.
    pub open spec fn modify_order(self, order: (u32, OrderParams)) -> InstructionData {
        self.instruction(
            place_accounts(self.wallet),
            Seq::empty(),
            InstructionArgsData::ModifyOrder {
                order_id: Some(order.0),
                modify_order_params: modification(order.1),
            },
        )
    }

    /// The instructions that modify orders: one for each, in their order.
    pub open spec fn modify_orders(self, orders: Seq<(u32, OrderParams)>) -> Seq<InstructionData> {
        orders.map_values(|order: (u32, OrderParams)| self.modify_order(order))
    }
}

/// The instruction goes to the program and acts on the user account of the wallet with its
/// authority, and none of the accounts that follow signs.
pub open spec fn acts_for(ix: InstructionData, wallet: WalletData) -> bool {
    &&& ix.program_id == (Pubkey { bytes: PROGRAM_ID })
    &&& ix.base == place_accounts(wallet) || ix.base == cancel_accounts(wallet)
    &&& forall|k: int| 0 <= k < ix.remaining.len() ==> !(#[trigger] ix.remaining[k]).is_signer
}

/// One call of a builder's methods.
pub enum Step {
    PlaceOrders { placed: Seq<OrderParams> },
    CancelAllOrders,
    CancelOrders { market: (u16, MarketType), direction: Option<PositionDirection> },
    CancelOrdersById { order_ids: Seq<u32> },
    ModifyOrders { modified: Seq<(u32, OrderParams)> },
}

impl BuilderData {
    /// A builder that has no instruction yet.
    pub open spec fn fresh(wallet: WalletData, user: UserData, table: MarketTable) -> BuilderData {
        BuilderData { wallet, user, table, ixs: Seq::empty() }
    }

    /// The builder after a call.
    pub open spec fn step(self, step: Step) -> BuilderData {
        match step {
            Step::PlaceOrders { placed } => self.with(self.place_orders(placed)),
            Step::CancelAllOrders => self.with(self.cancel_all_orders()),
            Step::CancelOrders { market, direction } => self.with(
                self.cancel_orders(market, direction),
            ),
            Step::CancelOrdersById { order_ids } => self.with(self.cancel_orders_by_id(order_ids)),
            Step::ModifyOrders { modified } => self.with_all(self.modify_orders(modified)),
        }
    }

    /// The builder after a chain of calls.
    pub open spec fn chain(self, steps: Seq<Step>) -> BuilderData
        decreases steps.len(),
    {
        if steps.len() == 0 {
            self
        } else {
            self.chain(steps.drop_last()).step(steps.last())
        }
    }
}

/// Every instruction that a chain of calls leaves acts for the wallet that the builder is for.
pub proof fn chains_act_for_the_wallet(
    wallet: WalletData,
    user: UserData,
    table: MarketTable,
    steps: Seq<Step>,
)
    ensures
        ({
            let builder = BuilderData::fresh(wallet, user, table).chain(steps);
            &&& builder.wallet == wallet
            &&& builder.user == user
            &&& builder.table == table
            &&& forall|i: int|
                0 <= i < builder.ixs.len() ==> acts_for(#[trigger] builder.ixs[i], wallet)
        }),
    decreases steps.len(),
{
    if steps.len() > 0 {
        chains_act_for_the_wallet(wallet, user, table, steps.drop_last());
        let before = BuilderData::fresh(wallet, user, table).chain(steps.drop_last());
        let after = before.step(steps.last());
        assert forall|i: int| 0 <= i < after.ixs.len() implies acts_for(
            #[trigger] after.ixs[i],
            wallet,
        ) by {
            if i < before.ixs.len() {
                assert(after.ixs[i] == before.ixs[i]);
            }
        }
    }
}

/// The program's interface asks no one but this key to sign.
pub open spec fn interface_only_asks(encodings: Seq<EncodingData>, key: Pubkey) -> bool {
    forall|i: int, j: int|
        #![trigger encodings[i].base[j]]
        0 <= i < encodings.len() && 0 <= j < encodings[i].base.len()
            && encodings[i].base[j].is_signer ==> encodings[i].base[j].pubkey == key
}

/// Whatever chain of calls a transaction was built by, it is unsigned, the wallet's authority is its
/// first key, which pays, and has to sign, and its instructions are those of the chain, one for one
/// and in order, all for the program. It waits for the authority alone exactly where the program's
/// interface asks no one else to sign.
pub proof fn built_chains_wait_for_the_authority(
    wallet: WalletData,
    user: UserData,
    table: MarketTable,
    steps: Seq<Step>,
    encodings: Seq<EncodingData>,
    tx: TransactionData,
)
    requires
        encodings.len() == BuilderData::fresh(wallet, user, table).chain(steps).ixs.len(),
        is_built(
            tx,
            encoded_all(BuilderData::fresh(wallet, user, table).chain(steps).ixs, encodings),
            wallet.authority,
        ),
    ensures
        tx.message.keys[0] == wallet.authority,
        tx.message.blockhash == blank(32),
        tx.signatures == Seq::new(tx.message.required_signatures, |i: int| blank(64)),
        requires_signature_of(tx.message, wallet.authority@),
        tx.message.required_signatures == 1 <==> interface_only_asks(encodings, wallet.authority),
        interface_only_asks(encodings, wallet.authority) ==> tx.signatures == seq![blank(64)],
        interface_only_asks(encodings, wallet.authority) ==> forall|key: Seq<u8>| #[trigger]
            requires_signature_of(tx.message, key) <==> key == wallet.authority@,
        tx.message.instructions.len() == encodings.len(),
        forall|i: int|
            0 <= i < encodings.len() ==> (#[trigger] tx.message.instructions[i]).data
                == encodings[i].data,
        tx.message.keys.len() <= 256 ==> forall|i: int|
            0 <= i < encodings.len() ==> tx.message.keys[(
            #[trigger] tx.message.instructions[i]).program_index as int] == (Pubkey {
                bytes: PROGRAM_ID,
            }),
{
    let builder = BuilderData::fresh(wallet, user, table).chain(steps);
    let raw = encoded_all(builder.ixs, encodings);
    let payer = wallet.authority;
    chains_act_for_the_wallet(wallet, user, table, steps);
    built_transactions_wait_for_their_signers(tx, raw, payer);
    if interface_only_asks(encodings, payer) {
        assert forall|i: int, j: int|
            #![trigger raw[i].accounts[j]]
            0 <= i < raw.len() && 0 <= j < raw[i].accounts.len()
                && raw[i].accounts[j].is_signer implies raw[i].accounts[j].pubkey == payer by {
            let own = encodings[i].base;
            if j < own.len() {
                assert(raw[i].accounts[j] == encodings[i].base[j]);
            } else {
                assert(acts_for(builder.ixs[i], wallet));
                assert(raw[i].accounts[j] == builder.ixs[i].remaining[j - own.len()]);
            }
        }
        assert(only_asks(raw, payer));
        assert(tx.signatures =~= seq![blank(64)]);
    }
    if only_asks(raw, payer) {
        assert forall|i: int, j: int|
            #![trigger encodings[i].base[j]]
            0 <= i < encodings.len() && 0 <= j < encodings[i].base.len()
                && encodings[i].base[j].is_signer implies encodings[i].base[j].pubkey == payer by {
            assert(raw[i].accounts[j] == encodings[i].base[j]);
        }
    }
    assert forall|i: int| 0 <= i < encodings.len() implies (
    #[trigger] tx.message.instructions[i]).data == encodings[i].data by {
        assert(raw[i].data == encodings[i].data);
    }
    if tx.message.keys.len() <= 256 {
        assert forall|i: int| 0 <= i < encodings.len() implies tx.message.keys[(
        #[trigger] tx.message.instructions[i]).program_index as int] == (Pubkey {
            bytes: PROGRAM_ID,
        }) by {
            assert(acts_for(builder.ixs[i], wallet));
            assert(raw[i].program_id == builder.ixs[i].program_id);
        }
    }
}

/// What a modification does to the transaction does not depend on the market that is written into
/// the order's new parameters, known or not: the instructions and their accounts are the same.
pub proof fn modifications_ignore_the_market(
    builder: BuilderData,
    x: Seq<(u32, OrderParams)>,
    y: Seq<(u32, OrderParams)>,
)
    requires
        x.len() == y.len(),
        forall|i: int|
            0 <= i < x.len() ==> (#[trigger] x[i]).0 == y[i].0 && x[i].1 == (OrderParams {
                slot: x[i].1.slot,
                market_index: x[i].1.market_index,
                market_type: x[i].1.market_type,
                ..y[i].1
            }),
    ensures
        builder.with_all(builder.modify_orders(x)) == builder.with_all(builder.modify_orders(y)),
        forall|i: int|
            0 <= i < x.len() ==> (#[trigger] builder.modify_orders(x)[i]).remaining == metas(
                remaining_accounts(
                    builder.wallet.context,
                    builder.user,
                    Seq::empty(),
                    Seq::empty(),
                    builder.table,
                ),
            ),
{
    assert forall|i: int| 0 <= i < x.len() implies builder.modify_order(#[trigger] x[i])
        == builder.modify_order(y[i]) by {
        assert(modification(x[i].1) == modification(y[i].1));
    }
    assert(builder.modify_orders(x) =~= builder.modify_orders(y));
}

/// Modifying orders in two calls is modifying all of them in one.
pub proof fn modifications_compose(
    builder: BuilderData,
    first: Seq<(u32, OrderParams)>,
    second: Seq<(u32, OrderParams)>,
)
    ensures
        ({
            let half = builder.with_all(builder.modify_orders(first));
            half.with_all(half.modify_orders(second)) == builder.with_all(
                builder.modify_orders(first + second),
            )
        }),
{
    let half = builder.with_all(builder.modify_orders(first));
    let full = builder.with_all(builder.modify_orders(first + second));
    assert(half.with_all(half.modify_orders(second)).ixs =~= full.ixs);
}

/// Placing orders appends one instruction, whose arguments are all the given orders, each in its
/// place, and which names the accounts of the market of each of them. What was there stays.
pub proof fn every_order_is_placed(
    builder: BuilderData,
    orders: Seq<OrderParams>,
    markets: Seq<MarketId>,
)
    requires
        markets.len() == orders.len(),
        forall|i: int|
            0 <= i < orders.len() ==> (#[trigger] markets[i]).index == orders[i].market_index
                && markets[i].kind == orders[i].market_type,
    ensures
        ({
            let next = builder.with(builder.place_orders(orders));
            &&& next.wallet == builder.wallet
            &&& next.user == builder.user
            &&& next.table == builder.table
            &&& next.ixs.len() == builder.ixs.len() + 1
            &&& forall|i: int|
                0 <= i < builder.ixs.len() ==> #[trigger] next.ixs[i] == builder.ixs[i]
            &&& next.ixs.last().program_id.bytes == PROGRAM_ID
            &&& next.ixs.last().base == (BaseAccounts::PlaceOrder {
                state: Pubkey { bytes: STATE_ACCOUNT },
                authority: builder.wallet.authority,
                user: builder.wallet.user,
            })
            &&& next.ixs.last().remaining == metas(
                remaining_accounts(
                    builder.wallet.context,
                    builder.user,
                    markets,
                    Seq::empty(),
                    builder.table,
                ),
            )
            &&& next.ixs.last().args matches InstructionArgsData::PlaceOrders { params }
                && params.len() == orders.len() && forall|i: int|
                0 <= i < orders.len() ==> #[trigger] params[i] == orders[i]
        }),
{
    assert(order_markets(orders) =~= markets);
}

/// Cancelling all orders appends one instruction that leaves market, kind and direction open. What
/// was there stays.
pub proof fn cancelling_all_singles_out_no_order(builder: BuilderData)
    ensures
        ({
            let next = builder.with(builder.cancel_all_orders());
            &&& next.wallet == builder.wallet
            &&& next.user == builder.user
            &&& next.table == builder.table
            &&& next.ixs.len() == builder.ixs.len() + 1
            &&& forall|i: int|
                0 <= i < builder.ixs.len() ==> #[trigger] next.ixs[i] == builder.ixs[i]
            &&& next.ixs.last().program_id.bytes == PROGRAM_ID
            &&& next.ixs.last().base == (BaseAccounts::CancelOrder {
                state: Pubkey { bytes: STATE_ACCOUNT },
                authority: builder.wallet.authority,
                user: builder.wallet.user,
            })
            &&& next.ixs.last().remaining == metas(
                remaining_accounts(
                    builder.wallet.context,
                    builder.user,
                    Seq::empty(),
                    Seq::empty(),
                    builder.table,
                ),
            )
            &&& next.ixs.last().args matches InstructionArgsData::CancelOrders {
                market_index,
                market_type,
                direction,
            } && market_index is None && market_type is None && direction is None
        }),
{
}

/// Cancelling by market appends one instruction that names the index and the kind of the given
/// market and the given direction, and the accounts of that market. What was there stays.
pub proof fn cancelling_by_market_names_the_market(
    builder: BuilderData,
    market: (u16, MarketType),
    direction: Option<PositionDirection>,
)
    ensures
        ({
            let next = builder.with(builder.cancel_orders(market, direction));
            &&& next.wallet == builder.wallet
            &&& next.user == builder.user
            &&& next.table == builder.table
            &&& next.ixs.len() == builder.ixs.len() + 1
            &&& forall|i: int|
                0 <= i < builder.ixs.len() ==> #[trigger] next.ixs[i] == builder.ixs[i]
            &&& next.ixs.last().program_id.bytes == PROGRAM_ID
            &&& next.ixs.last().base == (BaseAccounts::CancelOrder {
                state: Pubkey { bytes: STATE_ACCOUNT },
                authority: builder.wallet.authority,
                user: builder.wallet.user,
            })
            &&& next.ixs.last().remaining == metas(
                remaining_accounts(
                    builder.wallet.context,
                    builder.user,
                    seq![MarketId { index: market.0, kind: market.1 }],
                    Seq::empty(),
                    builder.table,
                ),
            )
            &&& next.ixs.last().args matches InstructionArgsData::CancelOrders {
                market_index,
                market_type,
                direction: side,
            } && market_index == Some(market.0) && market_type == Some(market.1) && side
                == direction
        }),
{
}

/// Cancelling by ids appends one instruction with all the given ids, each in its place. What was
/// there stays.
pub proof fn cancelling_by_id_names_every_id(builder: BuilderData, ids: Seq<u32>)
    ensures
        ({
            let next = builder.with(builder.cancel_orders_by_id(ids));
            &&& next.wallet == builder.wallet
            &&& next.user == builder.user
            &&& next.table == builder.table
            &&& next.ixs.len() == builder.ixs.len() + 1
            &&& forall|i: int|
                0 <= i < builder.ixs.len() ==> #[trigger] next.ixs[i] == builder.ixs[i]
            &&& next.ixs.last().program_id.bytes == PROGRAM_ID
            &&& next.ixs.last().base == (BaseAccounts::CancelOrder {
                state: Pubkey { bytes: STATE_ACCOUNT },
                authority: builder.wallet.authority,
                user: builder.wallet.user,
            })
            &&& next.ixs.last().remaining == metas(
                remaining_accounts(
                    builder.wallet.context,
                    builder.user,
                    Seq::empty(),
                    Seq::empty(),
                    builder.table,
                ),
            )
            &&& next.ixs.last().args matches InstructionArgsData::CancelOrdersByIds { order_ids }
                && order_ids.len() == ids.len() && forall|i: int|
                0 <= i < ids.len() ==> #[trigger] order_ids[i] == ids[i]
        }),
{
}

/// Modifying orders appends one instruction for each, in their order, which names the order by its
/// id and sends everything that its new parameters say. What was there stays.
pub proof fn every_order_is_modified(
    builder: BuilderData,
    orders: Seq<(u32, OrderParams)>,
    k: int,
)
    requires
        0 <= k < orders.len(),
    ensures
        ({
            let next = builder.with_all(builder.modify_orders(orders));
            let ix = next.ixs[builder.ixs.len() + k];
            let params = orders[k].1;
            &&& next.wallet == builder.wallet
            &&& next.user == builder.user
            &&& next.table == builder.table
            &&& next.ixs.len() == builder.ixs.len() + orders.len()
            &&& forall|i: int|
                0 <= i < builder.ixs.len() ==> #[trigger] next.ixs[i] == builder.ixs[i]
            &&& ix.program_id.bytes == PROGRAM_ID
            &&& ix.base == (BaseAccounts::PlaceOrder {
                state: Pubkey { bytes: STATE_ACCOUNT },
                authority: builder.wallet.authority,
                user: builder.wallet.user,
            })
            &&& ix.remaining == metas(
                remaining_accounts(
                    builder.wallet.context,
                    builder.user,
                    Seq::empty(),
                    Seq::empty(),
                    builder.table,
                ),
            )
            &&& ix.args matches InstructionArgsData::ModifyOrder {
                order_id,
                modify_order_params: sent,
            } && {
                &&& order_id == Some(orders[k].0)
                &&& sent.direction == Some(params.direction)
                &&& sent.base_asset_amount == Some(params.base_asset_amount)
                &&& sent.price == Some(params.price)
                &&& sent.max_ts == params.max_ts
                &&& sent.trigger_price == params.trigger_price
                &&& sent.oracle_price_offset == params.oracle_price_offset
                &&& sent.auction_duration == params.auction_duration
                &&& sent.auction_start_price == params.auction_start_price
                &&& sent.auction_end_price == params.auction_end_price
            }
        }),
{
}

/// Modifying no order changes nothing.
pub proof fn modifying_nothing_is_nothing(builder: BuilderData)
    ensures
        builder.with_all(builder.modify_orders(Seq::empty())) == builder,
{
    assert(builder.with_all(builder.modify_orders(Seq::empty())).ixs =~= builder.ixs);
}

/// Different requests make different instructions: other orders to place, another market, kind or
/// direction to cancel in, and other ids to cancel each give other arguments.
pub proof fn different_requests_have_different_arguments(
    builder: BuilderData,
    placed: (Seq<OrderParams>, Seq<OrderParams>),
    markets: ((u16, MarketType), (u16, MarketType)),
    directions: (Option<PositionDirection>, Option<PositionDirection>),
    ids: (Seq<u32>, Seq<u32>),
)
    ensures
        builder.place_orders(placed.0).args == builder.place_orders(placed.1).args ==> placed.0
            == placed.1,
        builder.cancel_orders(markets.0, directions.0).args == builder.cancel_orders(
            markets.1,
            directions.1,
        ).args ==> markets.0 == markets.1 && directions.0 == directions.1,
        builder.cancel_orders_by_id(ids.0).args == builder.cancel_orders_by_id(ids.1).args ==> ids.0
            == ids.1,
        builder.cancel_orders(markets.0, directions.0).args != builder.cancel_all_orders().args,
{
}

/// An instruction that reads markets can be built exactly where the table knows each of them, every
/// market in which the user has a record that is not free, and the quote market.
pub proof fn builders_need_the_markets_involved(builder: BuilderData, markets: Seq<MarketId>)
    ensures
        builder.supports(markets) <==> forall|market: MarketId| #[trigger]
            involves(builder.user, markets, Seq::empty(), market) ==> builder.table.accounts_of(
                builder.wallet.context,
                market,
            ) is Some,
{
    instructions_need_the_markets_they_involve(
        builder.wallet.context,
        builder.user,
        markets,
        Seq::empty(),
        builder.table,
    );
}

/// An encoded instruction goes to the program of the instruction, with the bytes of its encoding,
/// and lists first the accounts of the encoding and then those that follow, all in their order.
pub proof fn encoded_instructions_keep_everything(
    ixs: Seq<InstructionData>,
    encodings: Seq<EncodingData>,
    i: int,
)
    requires
        ixs.len() == encodings.len(),
        0 <= i < ixs.len(),
    ensures
        ({
            let raw = encoded_all(ixs, encodings);
            let own = encodings[i].base;
            &&& raw.len() == ixs.len()
            &&& raw[i].program_id == ixs[i].program_id
            &&& raw[i].data == encodings[i].data
            &&& raw[i].accounts.len() == own.len() + ixs[i].remaining.len()
            &&& forall|j: int| 0 <= j < own.len() ==> #[trigger] raw[i].accounts[j] == own[j]
            &&& forall|j: int|
                0 <= j < ixs[i].remaining.len() ==> raw[i].accounts[own.len() + j]
                    == #[trigger] ixs[i].remaining[j]
        }),
{
}

/// In a built transaction each instruction names the program, its own accounts and those that
/// follow, by the keys that stand at its indices, and carries the bytes of its encoding. The indices
/// are right for up to 256 keys.
pub proof fn built_instructions_name_their_accounts(
    ixs: Seq<InstructionData>,
    encodings: Seq<EncodingData>,
    payer: Pubkey,
    tx: TransactionData,
    i: int,
)
    requires
        ixs.len() == encodings.len(),
        0 <= i < ixs.len(),
        is_built(tx, encoded_all(ixs, encodings), payer),
        tx.message.keys.len() <= 256,
    ensures
        ({
            let keys = tx.message.keys;
            let ix = tx.message.instructions[i];
            let own = encodings[i].base;
            &&& tx.message.instructions.len() == ixs.len()
            &&& keys[0] == payer
            &&& keys[ix.program_index as int] == ixs[i].program_id
            &&& ix.data == encodings[i].data
            &&& ix.accounts.len() == own.len() + ixs[i].remaining.len()
            &&& forall|j: int|
                0 <= j < own.len() ==> keys[#[trigger] ix.accounts[j] as int] == own[j].pubkey
            &&& forall|j: int|
                0 <= j < ixs[i].remaining.len() ==> keys[ix.accounts[own.len() + j] as int] == (
                #[trigger] ixs[i].remaining[j]).pubkey
        }),
{
    encoded_instructions_keep_everything(ixs, encodings, i);
    let raw = encoded_all(ixs, encodings);
    let ix = tx.message.instructions[i];
    let own = encodings[i].base;
    assert(is_compiled(ix, tx.message.keys, raw[i]));
    assert forall|j: int| 0 <= j < own.len() implies tx.message.keys[#[trigger] ix.accounts[j] as int]
        == own[j].pubkey by {
        assert(raw[i].accounts[j] == own[j]);
    }
    assert forall|j: int| 0 <= j < ixs[i].remaining.len() implies tx.message.keys[ix.accounts[
    own.len() + j] as int] == (#[trigger] ixs[i].remaining[j]).pubkey by {
        assert(raw[i].accounts[own.len() + j] == ixs[i].remaining[j]);
    }
}

/// What instructions and encodings are said to hold is all that they hold.
pub proof fn instructions_hold_what_they_are_said_to(ix: Instruction, encoding: Encoding)
    ensures
        ix@.program_id == ix.program_id,
        ix@.base == ix.base,
        ix@.remaining == ix.remaining@,
        ix@.args == ix.args@,
        encoding@.base == encoding.base@,
        encoding@.data == encoding.data@,
{
}

/// Composable Tx builder for Drift program
///
/// Each method appends its instructions to those that are there; `build` makes one transaction of
/// all of them, which the wallet's authority pays for.
pub struct TransactionBuilder<'a> {
    /// wallet to use for tx signing and authority
    wallet: &'a Wallet,
    /// user account data
    user: &'a User,
    /// the markets that the SDK knows
    table: &'a MarketTable,
    /// ordered list of instructions
    ixs: Vec<Instruction>,
}

impl<'a> View for TransactionBuilder<'a> {
    type V = BuilderData;

    closed spec fn view(&self) -> BuilderData {
        BuilderData {
            wallet: self.wallet@,
            user: self.user@,
            table: *self.table,
            ixs: self.ixs@.map_values(|ix: Instruction| ix@),
        }
    }
}

impl<'a> TransactionBuilder<'a> {
    /// A transaction without instructions.
    pub fn new(wallet: &'a Wallet, user: &'a User, table: &'a MarketTable) -> (r: Self)
        ensures
            r@ == (BuilderData {
                wallet: wallet@,
                user: user@,
                table: *table,
                ixs: Seq::empty(),
            }),
    {
        let r = TransactionBuilder { wallet, user, table, ixs: Vec::new() };
        assert(r@.ixs =~= Seq::empty());
        r
    }

    /// Whether an instruction that reads `markets` can be built: the markets and those of the
    /// user's positions are known.
    pub fn supports(&self, markets: &[MarketId]) -> (r: bool)
        ensures
            r == self@.supports(markets@),
    {
        let none: [MarketId; 0] = [];
        assert(none@ =~= Seq::empty());
        supports(self.wallet.context(), self.user, markets, &none, self.table)
    }

    /// Appends an instruction.
    fn push(&mut self, accounts: AccountList, args: InstructionArgs)
        ensures
            final(self)@ == old(self)@.with(
                (InstructionData {
                    program_id: Pubkey { bytes: PROGRAM_ID },
                    base: accounts.base,
                    remaining: accounts.remaining@,
                    args: args@,
                }),
            ),
    {
        let ix = Instruction {
            program_id: program_id(),
            base: accounts.base,
            remaining: accounts.remaining,
            args,
        };
        self.ixs.push(ix);
        assert(self@.ixs =~= old(self)@.ixs.push(ix@));
    }

    /// The accounts of an instruction that reads `markets`.
    fn accounts(&self, base: BaseAccounts, markets: &[MarketId]) -> (r: AccountList)
        requires
            self@.supports(markets@),
        ensures
            r.base == base,
            forall|args: InstructionArgsData|
                (#[trigger] self@.instruction(base, markets@, args)).remaining == r.remaining@,
    {
        let none: [MarketId; 0] = [];
        assert(none@ =~= Seq::empty());
        build_accounts(self.wallet.context(), base, self.user, markets, &none, self.table)
    }

    /// The accounts that order placement and modification name for themselves.
    fn place_accounts(&self) -> (r: BaseAccounts)
        ensures
            r == place_accounts(self@.wallet),
    {
        BaseAccounts::PlaceOrder {
            state: state_account(),
            authority: self.wallet.authority(),
            user: *self.wallet.user(),
        }
    }

    /// The accounts that order cancellation names for itself.
    fn cancel_accounts(&self) -> (r: BaseAccounts)
        ensures
            r == cancel_accounts(self@.wallet),
    {
        BaseAccounts::CancelOrder {
            state: state_account(),
            authority: self.wallet.authority(),
            user: *self.wallet.user(),
        }
    }

    /// Place new orders for account
    pub fn place_orders(self, orders: Vec<OrderParams>) -> (r: Self)
        requires
            self@.supports(order_markets(orders@)),
        ensures
            r@ == self@.with(self@.place_orders(orders@)),
    {
        let mut this = self;
        let mut readable_accounts: Vec<MarketId> = Vec::new();
        let mut i: usize = 0;
        while i < orders.len()
            invariant
                0 <= i <= orders@.len(),
                readable_accounts@ =~= order_markets(orders@.take(i as int)),
            decreases orders@.len() - i,
        {
            readable_accounts.push(MarketId::new(orders[i].market_index, orders[i].market_type));
            i += 1;
        }
        assert(orders@.take(i as int) =~= orders@);
        let base: BaseAccounts = this.place_accounts();
        let accounts: AccountList = this.accounts(base, readable_accounts.as_slice());
        let ghost ix = self@.place_orders(orders@);
        assert(ix.remaining == accounts.remaining@);
        this.push(accounts, InstructionArgs::PlaceOrders { params: orders });
        this
    }

    /// Cancel all orders for account
    pub fn cancel_all_orders(self) -> (r: Self)
        requires
            self@.supports(Seq::empty()),
        ensures
            r@ == self@.with(self@.cancel_all_orders()),
    {
        let mut this = self;
        let none: [MarketId; 0] = [];
        assert(none@ =~= Seq::empty());
        let base: BaseAccounts = this.cancel_accounts();
        let accounts: AccountList = this.accounts(base, &none);
        let ghost ix = self@.cancel_all_orders();
        assert(ix.remaining == accounts.remaining@);
        this.push(
            accounts,
            InstructionArgs::CancelOrders {
                market_index: None,
                market_type: None,
                direction: None,
            },
        );
        this
    }

    /// Cancel account's orders matching some criteria
    ///
    /// `market` - tuple of market ID and type (spot or perp)
    ///
    /// `direction` - long or short
    pub fn cancel_orders(
        self,
        market: (u16, MarketType),
        direction: Option<PositionDirection>,
    ) -> (r: Self)
        requires
            self@.supports(seq![MarketId { index: market.0, kind: market.1 }]),
        ensures
            r@ == self@.with(self@.cancel_orders(market, direction)),
    {
        let mut this = self;
        let (idx, kind) = market;
        let markets: [MarketId; 1] = [MarketId::new(idx, kind)];
        assert(markets@ =~= seq![MarketId { index: market.0, kind: market.1 }]);
        let base: BaseAccounts = this.cancel_accounts();
        let accounts: AccountList = this.accounts(base, &markets);
        let ghost ix = self@.cancel_orders(market, direction);
        assert(ix.remaining == accounts.remaining@);
        this.push(
            accounts,
            InstructionArgs::CancelOrders {
                market_index: Some(idx),
                market_type: Some(kind),
                direction,
            },
        );
        this
    }

    /// Cancel orders given ids
    pub fn cancel_orders_by_id(self, order_ids: Vec<u32>) -> (r: Self)
        requires
            self@.supports(Seq::empty()),
        ensures
            r@ == self@.with(self@.cancel_orders_by_id(order_ids@)),
    {
        let mut this = self;
        let none: [MarketId; 0] = [];
        assert(none@ =~= Seq::empty());
        let base: BaseAccounts = this.cancel_accounts();
        let accounts: AccountList = this.accounts(base, &none);
        let ghost ix = self@.cancel_orders_by_id(order_ids@);
        assert(ix.remaining == accounts.remaining@);
        this.push(accounts, InstructionArgs::CancelOrdersByIds { order_ids });
        this
    }

    /// Modify existing order(s)
    pub fn modify_orders(self, orders: Vec<(u32, OrderParams)>) -> (r: Self)
        requires
            orders@.len() > 0 ==> self@.supports(Seq::empty()),
        ensures
            r@ == self@.with_all(self@.modify_orders(orders@)),
    {
        let mut this = self;
        let none: [MarketId; 0] = [];
        assert(none@ =~= Seq::empty());
        let ghost start = self@;
        let mut i: usize = 0;
        assert(start.ixs + start.modify_orders(orders@.take(0)) =~= start.ixs);
        while i < orders.len()
            invariant
                0 <= i <= orders@.len(),
                none@ == Seq::<MarketId>::empty(),
                orders@.len() > 0 ==> start.supports(Seq::empty()),
                this@ == start.with_all(start.modify_orders(orders@.take(i as int))),
            decreases orders@.len() - i,
        {
            let (order_id, params): (u32, OrderParams) = orders[i];
            let base: BaseAccounts = this.place_accounts();
            let accounts: AccountList = this.accounts(base, &none);
            let ghost ix = start.modify_order(orders@[i as int]);
            let ghost before = this@;
            assert(before.instruction(base, none@, ix.args).remaining == accounts.remaining@);
            this.push(
                accounts,
                InstructionArgs::ModifyOrder {
                    order_id: Some(order_id),
                    modify_order_params: ModifyOrderParams::from_params(&params),
                },
            );
            proof {
                assert(this@ == before.with(ix));
                assert(start.modify_orders(orders@.take(i + 1)) =~= start.modify_orders(
                    orders@.take(i as int),
                ).push(ix));
                assert(before.ixs.push(ix) =~= start.ixs + start.modify_orders(orders@.take(i + 1)));
            }
            i += 1;
        }
        assert(orders@.take(i as int) =~= orders@);
        this
    }

    /// The instructions so far, for the program's interface to encode.
    pub fn instructions(&self) -> (r: &Vec<Instruction>)
        ensures
            r@.map_values(|ix: Instruction| ix@) == self@.ixs,
    {
        &self.ixs
    }

    /// Each instruction with its encoding.
    fn assemble(&self, encodings: &Vec<Encoding>) -> (r: Vec<RawInstruction>)
        requires
            encodings@.len() == self@.ixs.len(),
        ensures
            raw_views(r@) == encoded_all(self@.ixs, encoding_views(encodings@)),
    {
        let mut out: Vec<RawInstruction> = Vec::new();
        let mut i: usize = 0;
        while i < self.ixs.len()
            invariant
                0 <= i <= self.ixs@.len(),
                encodings@.len() == self@.ixs.len(),
                self.ixs@.len() == self@.ixs.len(),
                out@.len() == i,
                forall|k: int|
                    0 <= k < i ==> (#[trigger] out@[k])@ == encoded(
                        self@.ixs[k],
                        encodings@[k]@,
                    ),
            decreases self.ixs@.len() - i,
        {
            let ix: &Instruction = &self.ixs[i];
            let encoding: &Encoding = &encodings[i];
            let mut accounts: Vec<AccountMeta> = encoding.base.clone();
            assert(accounts@ =~= encoding.base@);
            let mut j: usize = 0;
            while j < ix.remaining.len()
                invariant
                    0 <= j <= ix.remaining@.len(),
                    accounts@ =~= encoding.base@ + ix.remaining@.take(j as int),
                decreases ix.remaining@.len() - j,
            {
                accounts.push(ix.remaining[j]);
                j += 1;
            }
            assert(ix.remaining@.take(j as int) =~= ix.remaining@);
            let data: Vec<u8> = encoding.data.clone();
            assert(data@ =~= encoding.data@);
            out.push(RawInstruction { program_id: ix.program_id, accounts, data });
            assert(out@[i as int]@ =~= encoded(self@.ixs[i as int], encodings@[i as int]@));
            i += 1;
        }
        assert(raw_views(out@) =~= encoded_all(self@.ixs, encoding_views(encodings@)));
        out
    }

    /// Build the transaction ready for signing and sending
    ///
    /// `encodings` - of each instruction, in order, what the program's interface makes of it
    pub fn build(self, encodings: &Vec<Encoding>) -> (r: Transaction)
        requires
            encodings@.len() == self@.ixs.len(),
            compiles(
                encoded_all(self@.ixs, encoding_views(encodings@)),
                self@.wallet.authority,
            ),
        ensures
            r == transaction_with_payer(
                encoded_all(self@.ixs, encoding_views(encodings@)),
                self@.wallet.authority@,
            ),
            is_built(
                transaction_data(r),
                encoded_all(self@.ixs, encoding_views(encodings@)),
                self@.wallet.authority,
            ),
            signable(shape(transaction_data(r))) <==> wire_sized(
                encoded_all(self@.ixs, encoding_views(encodings@)),
                self@.wallet.authority,
            ),
    {
        let raw: Vec<RawInstruction> = self.assemble(encodings);
        let payer: Pubkey = self.wallet.authority();
        let tx: Transaction = new_with_payer(&raw, &payer);
        proof {
            let ixs = raw_views(raw@);
            let built = shape(transaction_data(tx));
            assert(built.instructions.len() == ixs.len());
            assert forall|i: int| 0 <= i < ixs.len() implies #[trigger] built.instructions[i] == (
                ixs[i].accounts.len(),
                ixs[i].data.len(),
            ) by {}
            if signable(built) {
                assert forall|i: int| 0 <= i < ixs.len() implies (
                #[trigger] ixs[i]).accounts.len() <= MAX_WIRE_LEN
                    && ixs[i].data.len() <= MAX_WIRE_LEN by {
                    assert(built.instructions[i].0 <= MAX_WIRE_LEN);
                }
            }
        }
        tx
    }

    /// `build` where there is an encoding for each instruction and all of them go into one
    /// transaction, and `None` elsewhere.
    pub fn checked_build(self, encodings: &Vec<Encoding>) -> (r: Option<Transaction>)
        ensures
            r is Some <==> encodings@.len() == self@.ixs.len() && compiles(
                encoded_all(self@.ixs, encoding_views(encodings@)),
                self@.wallet.authority,
            ),
            r matches Some(tx) ==> tx == transaction_with_payer(
                encoded_all(self@.ixs, encoding_views(encodings@)),
                self@.wallet.authority@,
            ),
            r matches Some(tx) ==> is_built(
                transaction_data(tx),
                encoded_all(self@.ixs, encoding_views(encodings@)),
                self@.wallet.authority,
            ),
            r matches Some(tx) ==> (signable(shape(transaction_data(tx))) <==> wire_sized(
                encoded_all(self@.ixs, encoding_views(encodings@)),
                self@.wallet.authority,
            )),
    {
        if encodings.len() != self.ixs.len() {
            return None;
        }
        let raw: Vec<RawInstruction> = self.assemble(encodings);
        let payer: Pubkey = self.wallet.authority();
        if check_compiles(&raw, &payer) {
            Some(self.build(encodings))
        } else {
            None
        }
    }
}

/// A new builder has no instruction, and is for the given wallet, account and markets.
pub proof fn new_builders_are_empty<'a>(
    wallet: &'a Wallet,
    user: &'a User,
    table: &'a MarketTable,
    r: TransactionBuilder<'a>,
)
    requires
        call_ensures(TransactionBuilder::new, (wallet, user, table), r),
    ensures
        r@.ixs.len() == 0,
        r@.wallet == wallet@,
        r@.user.orders == user.orders@,
        r@.user.spot_positions == user.spot_positions@,
        r@.user.perp_positions == user.perp_positions@,
        r@.table == *table,
{
}

/// The instructions that a builder shows are those that it holds, one for one and in order.
pub proof fn builders_show_their_instructions<'a>(
    builder: TransactionBuilder<'a>,
    shown: Vec<Instruction>,
    i: int,
)
    requires
        call_ensures(TransactionBuilder::instructions, (&builder,), &shown),
        0 <= i < builder@.ixs.len(),
    ensures
        shown@.len() == builder@.ixs.len(),
        builder@.ixs[i].program_id == shown@[i].program_id,
        builder@.ixs[i].base == shown@[i].base,
        builder@.ixs[i].remaining == shown@[i].remaining@,
        builder@.ixs[i].args == shown@[i].args@,
{
    let views = shown@.map_values(|ix: Instruction| ix@);
    assert(views.len() == shown@.len());
    assert(views[i] == shown@[i]@);
}

/// A call that places orders shows one instruction more, which asks to place all of them.
pub proof fn placing_shows_every_order<'a>(
    builder: TransactionBuilder<'a>,
    orders: Vec<OrderParams>,
    r: TransactionBuilder<'a>,
    shown: Vec<Instruction>,
)
    requires
        call_ensures(TransactionBuilder::place_orders, (builder, orders), r),
        call_ensures(TransactionBuilder::instructions, (&r,), &shown),
    ensures
        shown@.len() == builder@.ixs.len() + 1,
        shown@.last().args matches InstructionArgs::PlaceOrders { params } && params@.len()
            == orders@.len() && forall|i: int|
            0 <= i < orders@.len() ==> #[trigger] params@[i] == orders@[i],
{
    let markets = order_markets(orders@);
    every_order_is_placed(builder@, orders@, markets);
    builders_show_their_instructions(r, shown, builder@.ixs.len() as int);
}

/// A call that cancels orders shows one instruction more: of a market, its index, its kind and the
/// direction; of all orders, none of these; of given orders, all their ids.
pub proof fn cancelling_shows_what_to_cancel<'a>(
    builder: TransactionBuilder<'a>,
    market: (u16, MarketType),
    direction: Option<PositionDirection>,
    ids: Vec<u32>,
    by_market: (TransactionBuilder<'a>, Vec<Instruction>),
    all: (TransactionBuilder<'a>, Vec<Instruction>),
    by_id: (TransactionBuilder<'a>, Vec<Instruction>),
)
    requires
        call_ensures(TransactionBuilder::cancel_orders, (builder, market, direction), by_market.0),
        call_ensures(TransactionBuilder::cancel_all_orders, (builder,), all.0),
        call_ensures(TransactionBuilder::cancel_orders_by_id, (builder, ids), by_id.0),
        call_ensures(TransactionBuilder::instructions, (&by_market.0,), &by_market.1),
        call_ensures(TransactionBuilder::instructions, (&all.0,), &all.1),
        call_ensures(TransactionBuilder::instructions, (&by_id.0,), &by_id.1),
    ensures
        by_market.1@.len() == builder@.ixs.len() + 1,
        by_market.1@.last().args == (InstructionArgs::CancelOrders {
            market_index: Some(market.0),
            market_type: Some(market.1),
            direction,
        }),
        all.1@.len() == builder@.ixs.len() + 1,
        all.1@.last().args == (InstructionArgs::CancelOrders {
            market_index: None,
            market_type: None,
            direction: None,
        }),
        by_id.1@.len() == builder@.ixs.len() + 1,
        by_id.1@.last().args matches InstructionArgs::CancelOrdersByIds { order_ids }
            && order_ids@ == ids@,
{
    let n = builder@.ixs.len() as int;
    builders_show_their_instructions(by_market.0, by_market.1, n);
    builders_show_their_instructions(all.0, all.1, n);
    builders_show_their_instructions(by_id.0, by_id.1, n);
}

/// A call that modifies orders shows one instruction more for each, in their order, with the order's
/// id and everything that its new parameters say.
pub proof fn modifying_shows_every_parameter<'a>(
    builder: TransactionBuilder<'a>,
    orders: Vec<(u32, OrderParams)>,
    r: TransactionBuilder<'a>,
    shown: Vec<Instruction>,
    k: int,
)
    requires
        call_ensures(TransactionBuilder::modify_orders, (builder, orders), r),
        call_ensures(TransactionBuilder::instructions, (&r,), &shown),
        0 <= k < orders@.len(),
    ensures
        shown@.len() == builder@.ixs.len() + orders@.len(),
        ({
            let params = orders@[k].1;
            shown@[builder@.ixs.len() + k].args == (InstructionArgs::ModifyOrder {
                order_id: Some(orders@[k].0),
                modify_order_params: ModifyOrderParams {
                    direction: Some(params.direction),
                    base_asset_amount: Some(params.base_asset_amount),
                    price: Some(params.price),
                    max_ts: params.max_ts,
                    trigger_price: params.trigger_price,
                    oracle_price_offset: params.oracle_price_offset,
                    auction_duration: params.auction_duration,
                    auction_start_price: params.auction_start_price,
                    auction_end_price: params.auction_end_price,
                },
            })
        }),
{
    every_order_is_modified(builder@, orders@, k);
    builders_show_their_instructions(r, shown, builder@.ixs.len() + k);
}

/// A transaction is built of a builder's instructions and their encodings, and the wallet's
/// authority pays for it.
pub proof fn transactions_are_built_for_the_authority<'a>(
    builder: TransactionBuilder<'a>,
    encodings: Vec<Encoding>,
    tx: Transaction,
    checked: Option<Transaction>,
)
    requires
        call_ensures(TransactionBuilder::build, (builder, &encodings), tx),
        call_ensures(TransactionBuilder::checked_build, (builder, &encodings), checked),
    ensures
        is_built(
            transaction_data(tx),
            encoded_all(builder@.ixs, encodings@.map_values(|e: Encoding| e@)),
            builder@.wallet.authority,
        ),
        checked is Some <==> encodings@.len() == builder@.ixs.len() && compiles(
            encoded_all(builder@.ixs, encodings@.map_values(|e: Encoding| e@)),
            builder@.wallet.authority,
        ),
        checked matches Some(other) ==> other == tx,
{
}

} // verus!
