//! The accounts that an instruction has to name.
//!
//! Every instruction of the program takes, after its own accounts, the accounts of each market it
//! touches and of each market in which the user holds a position.
use crate::constants::{MarketAccounts, MarketTable, QUOTE_SPOT_MARKET_INDEX};
use crate::pubkey::Pubkey;
use crate::remaining::{
    account_list, account_list_unique, add_account, is_account_list, AccountMeta,
    RemainingAccount,
};
use crate::types::{Context, MarketId, MarketType};
use crate::user::{PerpPosition, SpotPosition, User, UserData};
use vstd::prelude::*;

verus! {

/// The accounts that an instruction names for itself.
#[derive(Clone, Copy, Debug, PartialEq, Eq)]
pub enum BaseAccounts {
    PlaceOrder { state: Pubkey, authority: Pubkey, user: Pubkey },
    CancelOrder { state: Pubkey, authority: Pubkey, user: Pubkey },
}

/// All accounts of an instruction: its own, and those that follow.
#[derive(Debug, PartialEq, Eq)]
pub struct AccountList {
    pub base: BaseAccounts,
    pub remaining: Vec<AccountMeta>,
}

/// A market to include, and whether the instruction writes to it.
#[derive(Clone, Copy, Debug, PartialEq, Eq, Structural)]
pub struct MarketRequest {
    pub market: MarketId,
    pub writable: bool,
}

/// Asks for each of `markets`, to write or to read.
pub open spec fn market_requests(markets: Seq<MarketId>, writable: bool) -> Seq<MarketRequest> {
    markets.map_values(|market: MarketId| MarketRequest { market, writable })
}

/// Asks to read the market of each spot position that is in use.
pub open spec fn spot_requests(positions: Seq<SpotPosition>) -> Seq<MarketRequest> {
    positions.filter(|p: SpotPosition| !p.available).map_values(
        |p: SpotPosition|
            MarketRequest {
                market: MarketId { index: p.market_index, kind: MarketType::Spot },
                writable: false,
            },
    )
}

/// Asks to read the market of each perp position that is in use.
pub open spec fn perp_requests(positions: Seq<PerpPosition>) -> Seq<MarketRequest> {
    positions.filter(|p: PerpPosition| !p.available).map_values(
        |p: PerpPosition|
            MarketRequest {
                market: MarketId { index: p.market_index, kind: MarketType::Perp },
                writable: false,
            },
    )
}

/// Asks to read the quote market.
pub open spec fn quote_request() -> MarketRequest {
    MarketRequest {
        market: MarketId { index: QUOTE_SPOT_MARKET_INDEX, kind: MarketType::Spot },
        writable: false,
    }
}

/// All markets that an instruction asks for, in the order in which they are considered.
pub open spec fn requests(
    user: UserData,
    markets_readable: Seq<MarketId>,
    markets_writable: Seq<MarketId>,
) -> Seq<MarketRequest> {
    market_requests(markets_writable, true) + market_requests(markets_readable, false)
        + spot_requests(user.spot_positions) + perp_requests(user.perp_positions)
        + seq![quote_request()]
}

/// The entry for a market's own account.
pub open spec fn market_entry(accounts: MarketAccounts, request: MarketRequest) -> RemainingAccount {
    match request.market.kind {
        MarketType::Spot => RemainingAccount::Spot {
            pubkey: accounts.account,
            writable: request.writable,
        },
        MarketType::Perp => RemainingAccount::Perp {
            pubkey: accounts.account,
            writable: request.writable,
        },
    }
}

/// The entry for a market's oracle.
pub open spec fn oracle_entry(accounts: MarketAccounts) -> RemainingAccount {
    RemainingAccount::Oracle { pubkey: accounts.oracle }
}

/// The accounts that requests ask for: of each its market, then its oracle.
pub open spec fn candidates(
    reqs: Seq<MarketRequest>,
    context: Context,
    table: MarketTable,
) -> Seq<RemainingAccount>
    decreases reqs.len(),
{
    if reqs.len() == 0 {
        Seq::empty()
    } else {
        let rest = candidates(reqs.drop_last(), context, table);
        match table.accounts_of(context, reqs.last().market) {
            Some(accounts) => rest.push(market_entry(accounts, reqs.last())).push(
                oracle_entry(accounts),
            ),
            None => rest,
        }
    }
}

/// The requests can be met: the table has every market that is asked for.
pub open spec fn supported(reqs: Seq<MarketRequest>, context: Context, table: MarketTable) -> bool {
    forall|i: int|
        0 <= i < reqs.len() ==> table.accounts_of(context, (#[trigger] reqs[i]).market) is Some
}

/// The accounts that follow an instruction's own, for the markets that it reads and writes.
pub open spec fn remaining_accounts(
    context: Context,
    user: UserData,
    markets_readable: Seq<MarketId>,
    markets_writable: Seq<MarketId>,
    table: MarketTable,
) -> Seq<RemainingAccount> {
    account_list(candidates(requests(user, markets_readable, markets_writable), context, table))
}

/// How an instruction lists accounts.
pub open spec fn metas(list: Seq<RemainingAccount>) -> Seq<AccountMeta> {
    list.map_values(|a: RemainingAccount| a.as_meta())
}

/// Adds the accounts of a requested market to the list.
fn include_market(
    list: &mut Vec<RemainingAccount>,
    request: MarketRequest,
    context: Context,
    table: &MarketTable,
    Ghost(reqs): Ghost<Seq<MarketRequest>>,
)
    requires
        is_account_list(old(list)@, candidates(reqs, context, *table)),
    ensures
        is_account_list(final(list)@, candidates(reqs.push(request), context, *table)),
{
    let ghost before = candidates(reqs, context, *table);
    assert(reqs.push(request).drop_last() =~= reqs);
    match table.market_accounts(context, request.market) {
        Some(accounts) => {
            let account: RemainingAccount = match request.market.kind {
                MarketType::Spot => RemainingAccount::Spot {
                    pubkey: accounts.account,
                    writable: request.writable,
                },
                MarketType::Perp => RemainingAccount::Perp {
                    pubkey: accounts.account,
                    writable: request.writable,
                },
            };
            let oracle: RemainingAccount = RemainingAccount::Oracle { pubkey: accounts.oracle };
            add_account(list, account, Ghost(before));
            add_account(list, oracle, Ghost(before.push(account)));
        },
        None => {},
    }
}

/// Appends a request for each of `markets`.
fn push_markets(out: &mut Vec<MarketRequest>, markets: &[MarketId], writable: bool)
    ensures
        final(out)@ == old(out)@ + market_requests(markets@, writable),
{
    let ghost start = out@;
    let mut i: usize = 0;
    while i < markets.len()
        invariant
            0 <= i <= markets@.len(),
            out@ =~= start + market_requests(markets@.take(i as int), writable),
        decreases markets@.len() - i,
    {
        out.push(MarketRequest { market: markets[i], writable });
        i += 1;
    }
    assert(markets@.take(i as int) =~= markets@);
}

/// Appends a request for each spot position in use.
fn push_spot_positions(out: &mut Vec<MarketRequest>, positions: &Vec<SpotPosition>)
    ensures
        final(out)@ == old(out)@ + spot_requests(positions@),
{
    let ghost start = out@;
    let mut i: usize = 0;
    assert(spot_requests(positions@.take(0)) =~= Seq::empty()) by {
        reveal(Seq::filter);
    }
    while i < positions.len()
        invariant
            0 <= i <= positions@.len(),
            out@ =~= start + spot_requests(positions@.take(i as int)),
        decreases positions@.len() - i,
    {
        proof {
            reveal(Seq::filter);
            assert(positions@.take(i + 1).drop_last() =~= positions@.take(i as int));
        }
        if !positions[i].available {
            out.push(
                MarketRequest {
                    market: MarketId { index: positions[i].market_index, kind: MarketType::Spot },
                    writable: false,
                },
            );
        }
        i += 1;
    }
    assert(positions@.take(i as int) =~= positions@);
}

/// Appends a request for each perp position in use.
fn push_perp_positions(out: &mut Vec<MarketRequest>, positions: &Vec<PerpPosition>)
    ensures
        final(out)@ == old(out)@ + perp_requests(positions@),
{
    let ghost start = out@;
    let mut i: usize = 0;
    assert(perp_requests(positions@.take(0)) =~= Seq::empty()) by {
        reveal(Seq::filter);
    }
    while i < positions.len()
        invariant
            0 <= i <= positions@.len(),
            out@ =~= start + perp_requests(positions@.take(i as int)),
        decreases positions@.len() - i,
    {
        proof {
            reveal(Seq::filter);
            assert(positions@.take(i + 1).drop_last() =~= positions@.take(i as int));
        }
        if !positions[i].available {
            out.push(
                MarketRequest {
                    market: MarketId { index: positions[i].market_index, kind: MarketType::Perp },
                    writable: false,
                },
            );
        }
        i += 1;
    }
    assert(positions@.take(i as int) =~= positions@);
}

/// Collects all requests of an instruction.
fn collect_requests(
    user: &User,
    markets_readable: &[MarketId],
    markets_writable: &[MarketId],
) -> (r: Vec<MarketRequest>)
    ensures
        r@ == requests(user@, markets_readable@, markets_writable@),
{
    let mut out: Vec<MarketRequest> = Vec::new();
    push_markets(&mut out, markets_writable, true);
    push_markets(&mut out, markets_readable, false);
    // margin checks read the user's positions
    push_spot_positions(&mut out, &user.spot_positions);
    push_perp_positions(&mut out, &user.perp_positions);
    out.push(
        MarketRequest {
            market: MarketId { index: QUOTE_SPOT_MARKET_INDEX, kind: MarketType::Spot },
            writable: false,
        },
    );
    assert(out@ =~= requests(user@, markets_readable@, markets_writable@));
    out
}

/// Whether `build_accounts` can serve these markets and the user's positions.
pub fn supports(
    context: Context,
    user: &User,
    markets_readable: &[MarketId],
    markets_writable: &[MarketId],
    table: &MarketTable,
) -> (r: bool)
    ensures
        r == supported(
            requests(user@, markets_readable@, markets_writable@),
            context,
            *table,
        ),
{
    let reqs: Vec<MarketRequest> = collect_requests(user, markets_readable, markets_writable);
    let mut i: usize = 0;
    while i < reqs.len()
        invariant
            0 <= i <= reqs@.len(),
            reqs@ == requests(user@, markets_readable@, markets_writable@),
            forall|k: int|
                0 <= k < i ==> table.accounts_of(
                    context,
                    (#[trigger] reqs@[k]).market,
                ) is Some,
        decreases reqs@.len() - i,
    {
        match table.market_accounts(context, reqs[i].market) {
            Some(_) => {},
            None => {
                assert(table.accounts_of(context, reqs@[i as int].market) is None);
                return false;
            },
        }
        i += 1;
    }
    true
}

/// Builds the accounts of an instruction from its own accounts, the user's positions and the
/// markets that it reads or writes. A market that is both written and read is listed as written.
pub fn build_accounts(
    context: Context,
    base_accounts: BaseAccounts,
    user: &User,
    markets_readable: &[MarketId],
    markets_writable: &[MarketId],
    table: &MarketTable,
) -> (r: AccountList)
    requires
        supported(requests(user@, markets_readable@, markets_writable@), context, *table),
    ensures
        r.base == base_accounts,
        r.remaining@ == metas(
            remaining_accounts(context, user@, markets_readable@, markets_writable@, *table),
        ),
{
    let reqs: Vec<MarketRequest> = collect_requests(user, markets_readable, markets_writable);
    let mut list: Vec<RemainingAccount> = Vec::new();
    let mut i: usize = 0;
    while i < reqs.len()
        invariant
            0 <= i <= reqs@.len(),
            is_account_list(list@, candidates(reqs@.take(i as int), context, *table)),
        decreases reqs@.len() - i,
    {
        let ghost k = i as int;
        assert(reqs@.take(k).push(reqs@[k]) =~= reqs@.take(k + 1));
        include_market(&mut list, reqs[i], context, table, Ghost(reqs@.take(k)));
        i += 1;
    }
    assert(reqs@.take(i as int) =~= reqs@);
    proof {
        account_list_unique(list@, candidates(reqs@, context, *table));
    }
    let mut remaining: Vec<AccountMeta> = Vec::new();
    let mut j: usize = 0;
    while j < list.len()
        invariant
            0 <= j <= list@.len(),
            remaining@ =~= metas(list@.take(j as int)),
        decreases list@.len() - j,
    {
        remaining.push(list[j].meta());
        j += 1;
    }
    assert(list@.take(j as int) =~= list@);
    AccountList { base: base_accounts, remaining }
}

/// The accounts of an instruction are its own, as they were given, and then those that the markets
/// and positions call for. Whether they can be built is known beforehand.
pub proof fn own_accounts_come_first(
    context: Context,
    base: BaseAccounts,
    user: User,
    markets_readable: &[MarketId],
    markets_writable: &[MarketId],
    table: MarketTable,
    r: AccountList,
    known: bool,
)
    requires
        call_ensures(
            build_accounts,
            (context, base, &user, markets_readable, markets_writable, &table),
            r,
        ),
        call_ensures(supports, (context, &user, markets_readable, markets_writable, &table), known),
    ensures
        r.base == base,
        r.remaining@ == metas(
            remaining_accounts(context, user@, markets_readable@, markets_writable@, table),
        ),
        known <==> supported(
            requests(user@, markets_readable@, markets_writable@),
            context,
            table,
        ),
{
}

} // verus!
