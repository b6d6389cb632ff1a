//! What holds of the accounts of every instruction.
use crate::accounts::{
    candidates, market_entry, market_requests, metas, oracle_entry, perp_requests, quote_request,
    remaining_accounts, requests, spot_requests, supported, MarketRequest,
};
use crate::constants::MarketTable;
use crate::pubkey::{lemma_precedes_irreflexive, precedes};
use crate::remaining::{
    account_list_exists, lemma_first_position, lists, ordered, AccountMeta, RemainingAccount,
};
use crate::types::{Context, MarketId, MarketType};
use crate::user::{
    active_perp, active_spot, is_consistent, lemma_filter_keeps, lemma_filter_origin, PerpPosition,
    SpotPosition, UserData,
};
use vstd::prelude::*;

verus! {

/// `x` is the entry of the market, or of the oracle, of request `i`.
pub open spec fn entry_of(
    reqs: Seq<MarketRequest>,
    context: Context,
    table: MarketTable,
    i: int,
    x: RemainingAccount,
) -> bool {
    &&& 0 <= i < reqs.len()
    &&& table.accounts_of(context, reqs[i].market) matches Some(accounts) && (x == market_entry(
        accounts,
        reqs[i],
    ) || x == oracle_entry(accounts))
}

/// The markets that an instruction writes are asked for first.
proof fn lemma_written_first(
    user: UserData,
    markets_readable: Seq<MarketId>,
    markets_writable: Seq<MarketId>,
)
    ensures
        requests(user, markets_readable, markets_writable).len() >= markets_writable.len(),
        forall|i: int|
            0 <= i < markets_writable.len() ==> #[trigger] requests(
                user,
                markets_readable,
                markets_writable,
            )[i] == (MarketRequest { market: markets_writable[i], writable: true }),
        forall|i: int|
            markets_writable.len() <= i < requests(user, markets_readable, markets_writable).len()
                ==> !(#[trigger] requests(user, markets_readable, markets_writable)[i]).writable,
{
    let a = market_requests(markets_writable, true);
    let b = market_requests(markets_readable, false);
    let c = spot_requests(user.spot_positions);
    let d = perp_requests(user.perp_positions);
    let e = seq![quote_request()];
    let reqs = requests(user, markets_readable, markets_writable);
    assert forall|i: int| markets_writable.len() <= i < reqs.len() implies !(
    #[trigger] reqs[i]).writable by {
        if i < a.len() + b.len() {
            assert(reqs[i] == b[i - a.len()]);
        } else if i < a.len() + b.len() + c.len() {
            assert(reqs[i] == c[i - a.len() - b.len()]);
        } else if i < a.len() + b.len() + c.len() + d.len() {
            assert(reqs[i] == d[i - a.len() - b.len() - c.len()]);
        } else {
            assert(reqs[i] == e[0]);
        }
    }
}

/// Every candidate comes from a request.
proof fn lemma_candidate_origin(
    reqs: Seq<MarketRequest>,
    context: Context,
    table: MarketTable,
    c: int,
) -> (i: int)
    requires
        0 <= c < candidates(reqs, context, table).len(),
    ensures
        entry_of(reqs, context, table, i, candidates(reqs, context, table)[c]),
    decreases reqs.len(),
{
    let less = reqs.drop_last();
    let rest = candidates(less, context, table);
    if c < rest.len() {
        let i = lemma_candidate_origin(less, context, table, c);
        assert(less[i] == reqs[i]);
        i
    } else {
        reqs.len() - 1
    }
}

/// A request for a market in the table gives two candidates.
proof fn lemma_request_candidates(
    reqs: Seq<MarketRequest>,
    context: Context,
    table: MarketTable,
    i: int,
)
    requires
        0 <= i < reqs.len(),
        table.accounts_of(context, reqs[i].market) is Some,
    ensures
        candidates(reqs, context, table).contains(
            market_entry(table.accounts_of(context, reqs[i].market)->0, reqs[i]),
        ),
        candidates(reqs, context, table).contains(
            oracle_entry(table.accounts_of(context, reqs[i].market)->0),
        ),
    decreases reqs.len(),
{
    let all = candidates(reqs, context, table);
    let less = reqs.drop_last();
    let rest = candidates(less, context, table);
    let accounts = table.accounts_of(context, reqs[i].market)->0;
    if i == reqs.len() - 1 {
        assert(all[rest.len() as int] == market_entry(accounts, reqs[i]));
        assert(all[rest.len() as int + 1] == oracle_entry(accounts));
    } else {
        assert(less[i] == reqs[i]);
        lemma_request_candidates(less, context, table, i);
        let m = choose|m: int| 0 <= m < rest.len() && rest[m] == market_entry(accounts, reqs[i]);
        let n = choose|n: int| 0 <= n < rest.len() && rest[n] == oracle_entry(accounts);
        assert(all[m] == rest[m]);
        assert(all[n] == rest[n]);
    }
}

/// The candidates of the first `n` requests are the first candidates.
proof fn lemma_candidates_prefix(
    reqs: Seq<MarketRequest>,
    context: Context,
    table: MarketTable,
    n: int,
)
    requires
        0 <= n <= reqs.len(),
    ensures
        candidates(reqs.take(n), context, table).len() <= candidates(reqs, context, table).len(),
        forall|c: int|
            0 <= c < candidates(reqs.take(n), context, table).len() ==> #[trigger] candidates(
                reqs.take(n),
                context,
                table,
            )[c] == candidates(reqs, context, table)[c],
    decreases reqs.len(),
{
    if n == reqs.len() {
        assert(reqs.take(n) =~= reqs);
    } else {
        let less = reqs.drop_last();
        lemma_candidates_prefix(less, context, table, n);
        assert(less.take(n) =~= reqs.take(n));
    }
}

/// The accounts that follow an instruction's own are oracles, then spot markets, then perp
/// markets, each kind by address and without repetition, and none of them signs.
pub proof fn remaining_accounts_are_ordered(
    context: Context,
    user: UserData,
    markets_readable: Seq<MarketId>,
    markets_writable: Seq<MarketId>,
    table: MarketTable,
)
    ensures
        ({
            let list = remaining_accounts(
                context,
                user,
                markets_readable,
                markets_writable,
                table,
            );
            &&& ordered(list)
            &&& forall|k: int| 0 <= k < list.len() ==> !(#[trigger] metas(list)[k]).is_signer
        }),
{
    let reqs = requests(user, markets_readable, markets_writable);
    account_list_exists(candidates(reqs, context, table));
}

/// Everything that is listed is the account or the oracle of a market that was asked for.
pub proof fn only_requested_accounts_are_listed(
    context: Context,
    user: UserData,
    markets_readable: Seq<MarketId>,
    markets_writable: Seq<MarketId>,
    table: MarketTable,
    k: int,
)
    requires
        0 <= k < remaining_accounts(
            context,
            user,
            markets_readable,
            markets_writable,
            table,
        ).len(),
    ensures
        exists|i: int| #[trigger]
            entry_of(
                requests(user, markets_readable, markets_writable),
                context,
                table,
                i,
                remaining_accounts(context, user, markets_readable, markets_writable, table)[k],
            ),
{
    let reqs = requests(user, markets_readable, markets_writable);
    let all = candidates(reqs, context, table);
    account_list_exists(all);
    let list = remaining_accounts(context, user, markets_readable, markets_writable, table);
    let c = lemma_first_position(all, list[k]);
    let i = lemma_candidate_origin(reqs, context, table, c);
    assert(entry_of(reqs, context, table, i, list[k]));
}

/// Some request is for the market.
pub open spec fn asks_for(reqs: Seq<MarketRequest>, market: MarketId) -> bool {
    exists|i: int| 0 <= i < reqs.len() && (#[trigger] reqs[i]).market == market
}

/// The list has the account of the market and that of its oracle.
pub open spec fn lists_market(
    list: Seq<RemainingAccount>,
    context: Context,
    table: MarketTable,
    market: MarketId,
) -> bool {
    table.accounts_of(context, market) matches Some(accounts) && lists(
        list,
        market_entry(accounts, MarketRequest { market, writable: false }),
    ) && lists(list, oracle_entry(accounts))
}

/// What an instruction asks for: the markets that it writes, those that it reads, those of the
/// user's positions in use, and the quote market.
pub proof fn what_is_asked_for(
    user: UserData,
    markets_readable: Seq<MarketId>,
    markets_writable: Seq<MarketId>,
)
    ensures
        ({
            let reqs = requests(user, markets_readable, markets_writable);
            &&& forall|i: int|
                0 <= i < markets_writable.len() ==> asks_for(reqs, #[trigger] markets_writable[i])
            &&& forall|i: int|
                0 <= i < markets_readable.len() ==> asks_for(reqs, #[trigger] markets_readable[i])
            &&& forall|i: int|
                0 <= i < user.spot_positions.len() && !(
                #[trigger] user.spot_positions[i]).available ==> asks_for(
                    reqs,
                    (MarketId {
                        index: user.spot_positions[i].market_index,
                        kind: MarketType::Spot,
                    }),
                )
            &&& forall|i: int|
                0 <= i < user.perp_positions.len() && !(
                #[trigger] user.perp_positions[i]).available ==> asks_for(
                    reqs,
                    (MarketId {
                        index: user.perp_positions[i].market_index,
                        kind: MarketType::Perp,
                    }),
                )
            &&& asks_for(reqs, quote_request().market)
        }),
{
    let a = market_requests(markets_writable, true);
    let b = market_requests(markets_readable, false);
    let c = spot_requests(user.spot_positions);
    let d = perp_requests(user.perp_positions);
    let reqs = requests(user, markets_readable, markets_writable);
    assert forall|i: int| 0 <= i < markets_writable.len() implies asks_for(
        reqs,
        #[trigger] markets_writable[i],
    ) by {
        assert(reqs[i].market == a[i].market);
    }
    assert forall|i: int| 0 <= i < markets_readable.len() implies asks_for(
        reqs,
        #[trigger] markets_readable[i],
    ) by {
        assert(reqs[a.len() + i].market == b[i].market);
    }
    assert forall|i: int|
        0 <= i < user.spot_positions.len() && !(#[trigger] user.spot_positions[i]).available implies asks_for(
        reqs,
        (MarketId { index: user.spot_positions[i].market_index, kind: MarketType::Spot }),
    ) by {
        let p = |p: SpotPosition| !p.available;
        lemma_filter_keeps(user.spot_positions, p, i);
        let kept = user.spot_positions.filter(p);
        let k = choose|k: int| 0 <= k < kept.len() && kept[k] == user.spot_positions[i];
        assert(reqs[a.len() + b.len() + k] == c[k]);
    }
    assert forall|i: int|
        0 <= i < user.perp_positions.len() && !(#[trigger] user.perp_positions[i]).available implies asks_for(
        reqs,
        (MarketId { index: user.perp_positions[i].market_index, kind: MarketType::Perp }),
    ) by {
        let p = |p: PerpPosition| !p.available;
        lemma_filter_keeps(user.perp_positions, p, i);
        let kept = user.perp_positions.filter(p);
        let k = choose|k: int| 0 <= k < kept.len() && kept[k] == user.perp_positions[i];
        assert(reqs[a.len() + b.len() + c.len() + k] == d[k]);
    }
    assert(reqs[reqs.len() - 1] == quote_request());
}

/// Every market that is asked for is listed with its oracle.
pub proof fn requested_market_is_listed(
    context: Context,
    user: UserData,
    markets_readable: Seq<MarketId>,
    markets_writable: Seq<MarketId>,
    table: MarketTable,
    market: MarketId,
)
    requires
        supported(requests(user, markets_readable, markets_writable), context, table),
        asks_for(requests(user, markets_readable, markets_writable), market),
    ensures
        lists_market(
            remaining_accounts(context, user, markets_readable, markets_writable, table),
            context,
            table,
            market,
        ),
{
    let reqs = requests(user, markets_readable, markets_writable);
    let all = candidates(reqs, context, table);
    let list = remaining_accounts(context, user, markets_readable, markets_writable, table);
    account_list_exists(all);
    let k = choose|k: int| 0 <= k < reqs.len() && (#[trigger] reqs[k]).market == market;
    let accounts = table.accounts_of(context, market)->0;
    lemma_request_candidates(reqs, context, table, k);
    let m = choose|m: int| 0 <= m < all.len() && all[m] == market_entry(accounts, reqs[k]);
    let n = choose|n: int| 0 <= n < all.len() && all[n] == oracle_entry(accounts);
    assert(lists(list, all[m]));
    assert(lists(list, all[n]));
    reveal(lists);
    let p = choose|p: int| 0 <= p < list.len() && (#[trigger] list[p]).same_key(all[m]);
    assert(list[p].same_key(market_entry(accounts, MarketRequest { market, writable: false })));
}

/// The quote market and its oracle are listed for every instruction.
pub proof fn quote_market_is_listed(
    context: Context,
    user: UserData,
    markets_readable: Seq<MarketId>,
    markets_writable: Seq<MarketId>,
    table: MarketTable,
)
    requires
        supported(requests(user, markets_readable, markets_writable), context, table),
    ensures
        lists_market(
            remaining_accounts(context, user, markets_readable, markets_writable, table),
            context,
            table,
            quote_request().market,
        ),
{
    what_is_asked_for(user, markets_readable, markets_writable);
    requested_market_is_listed(
        context,
        user,
        markets_readable,
        markets_writable,
        table,
        quote_request().market,
    );
}

/// For every instruction the market and the oracle of each of the user's active spot positions and
/// open perp positions are listed.
pub proof fn active_positions_are_listed(
    context: Context,
    user: UserData,
    markets_readable: Seq<MarketId>,
    markets_writable: Seq<MarketId>,
    table: MarketTable,
)
    requires
        supported(requests(user, markets_readable, markets_writable), context, table),
        is_consistent(user),
    ensures
        ({
            let list = remaining_accounts(
                context,
                user,
                markets_readable,
                markets_writable,
                table,
            );
            let spots = active_spot(user.spot_positions);
            let perps = active_perp(user.perp_positions);
            &&& forall|k: int|
                0 <= k < spots.len() ==> lists_market(
                    list,
                    context,
                    table,
                    (MarketId { index: (#[trigger] spots[k]).market_index, kind: MarketType::Spot }),
                )
            &&& forall|k: int|
                0 <= k < perps.len() ==> lists_market(
                    list,
                    context,
                    table,
                    (MarketId { index: (#[trigger] perps[k]).market_index, kind: MarketType::Perp }),
                )
        }),
{
    let list = remaining_accounts(context, user, markets_readable, markets_writable, table);
    let spots = active_spot(user.spot_positions);
    let perps = active_perp(user.perp_positions);
    what_is_asked_for(user, markets_readable, markets_writable);
    assert forall|k: int| 0 <= k < spots.len() implies lists_market(
        list,
        context,
        table,
        (MarketId { index: (#[trigger] spots[k]).market_index, kind: MarketType::Spot }),
    ) by {
        let i = lemma_filter_origin(user.spot_positions, |p: SpotPosition| !p.available, k);
        let market = MarketId {
            index: user.spot_positions[i].market_index,
            kind: MarketType::Spot,
        };
        requested_market_is_listed(
            context,
            user,
            markets_readable,
            markets_writable,
            table,
            market,
        );
    }
    assert forall|k: int| 0 <= k < perps.len() implies lists_market(
        list,
        context,
        table,
        (MarketId { index: (#[trigger] perps[k]).market_index, kind: MarketType::Perp }),
    ) by {
        let i = lemma_filter_origin(user.perp_positions, |p: PerpPosition| p.open, k);
        let market = MarketId {
            index: user.perp_positions[i].market_index,
            kind: MarketType::Perp,
        };
        requested_market_is_listed(
            context,
            user,
            markets_readable,
            markets_writable,
            table,
            market,
        );
    }
}

/// A market that the instruction writes is listed as writable, also where the instruction reads it
/// or the user holds a position in it.
pub proof fn written_market_is_writable(
    context: Context,
    user: UserData,
    markets_readable: Seq<MarketId>,
    markets_writable: Seq<MarketId>,
    table: MarketTable,
    i: int,
)
    requires
        supported(requests(user, markets_readable, markets_writable), context, table),
        0 <= i < markets_writable.len(),
    ensures
        ({
            let request = MarketRequest { market: markets_writable[i], writable: true };
            let list = remaining_accounts(
                context,
                user,
                markets_readable,
                markets_writable,
                table,
            );
            &&& table.accounts_of(context, markets_writable[i]) matches Some(accounts)
                && list.contains(market_entry(accounts, request))
        }),
{
    let reqs = requests(user, markets_readable, markets_writable);
    let all = candidates(reqs, context, table);
    let list = remaining_accounts(context, user, markets_readable, markets_writable, table);
    let n = markets_writable.len() as int;
    lemma_written_first(user, markets_readable, markets_writable);
    account_list_exists(all);
    assert(reqs[i].market == markets_writable[i]);
    let accounts = table.accounts_of(context, reqs[i].market)->0;
    let entry = market_entry(accounts, reqs[i]);
    // the entry is among the candidates of the markets to write
    let written = reqs.take(n);
    let early = candidates(written, context, table);
    lemma_candidates_prefix(reqs, context, table, n);
    assert(written[i] == reqs[i]);
    lemma_request_candidates(written, context, table, i);
    let m = choose|m: int| 0 <= m < early.len() && early[m] == entry;
    assert(all[m] == entry);
    // what is listed for it stands no later among the candidates
    assert(lists(list, all[m]));
    let p = lemma_listed_at(list, entry);
    let c = lemma_first_position(all, list[p]);
    assert(c <= m) by {
        if m < c {
            assert(!all[m].same_key(list[p]));
        }
    }
    assert(early[c] == all[c]);
    let o = lemma_candidate_origin(written, context, table, c);
    assert(written[o] == reqs[o]);
    assert(written[o].writable);
    assert(list[p] == entry);
}

/// A listed key has a place in the list.
proof fn lemma_listed_at(list: Seq<RemainingAccount>, x: RemainingAccount) -> (p: int)
    requires
        lists(list, x),
    ensures
        0 <= p < list.len(),
        list[p].same_key(x),
{
    reveal(lists);
    choose|p: int| 0 <= p < list.len() && (#[trigger] list[p]).same_key(x)
}

/// An account is listed as writable only if it is that of a market that the instruction writes.
pub proof fn only_written_markets_are_writable(
    context: Context,
    user: UserData,
    markets_readable: Seq<MarketId>,
    markets_writable: Seq<MarketId>,
    table: MarketTable,
    k: int,
)
    requires
        0 <= k < remaining_accounts(
            context,
            user,
            markets_readable,
            markets_writable,
            table,
        ).len(),
        remaining_accounts(context, user, markets_readable, markets_writable, table)[k].writable(),
    ensures
        exists|i: int|
            0 <= i < markets_writable.len() && entry_of(
                market_requests(markets_writable, true),
                context,
                table,
                i,
                remaining_accounts(context, user, markets_readable, markets_writable, table)[k],
            ),
{
    let reqs = requests(user, markets_readable, markets_writable);
    let list = remaining_accounts(context, user, markets_readable, markets_writable, table);
    lemma_written_first(user, markets_readable, markets_writable);
    only_requested_accounts_are_listed(
        context,
        user,
        markets_readable,
        markets_writable,
        table,
        k,
    );
    let i = choose|i: int| #[trigger] entry_of(reqs, context, table, i, list[k]);
    assert(i < markets_writable.len()) by {
        if i >= markets_writable.len() {
            assert(!reqs[i].writable);
        }
    }
    assert(market_requests(markets_writable, true)[i] == reqs[i]);
    assert(entry_of(market_requests(markets_writable, true), context, table, i, list[k]));
}

/// An instruction involves a market: it writes it or reads it, or the user has a record in the
/// market that is not free, or it is the quote market.
pub open spec fn involves(
    user: UserData,
    markets_readable: Seq<MarketId>,
    markets_writable: Seq<MarketId>,
    market: MarketId,
) -> bool {
    ||| markets_writable.contains(market)
    ||| markets_readable.contains(market)
    ||| market.kind == MarketType::Spot && exists|i: int|
        0 <= i < user.spot_positions.len() && !(#[trigger] user.spot_positions[i]).available
            && user.spot_positions[i].market_index == market.index
    ||| market.kind == MarketType::Perp && exists|i: int|
        0 <= i < user.perp_positions.len() && !(#[trigger] user.perp_positions[i]).available
            && user.perp_positions[i].market_index == market.index
    ||| market.kind == MarketType::Spot && market.index == 0
}

/// An instruction asks for the markets that it involves and for no other.
proof fn lemma_asks_for_what_it_involves(
    user: UserData,
    markets_readable: Seq<MarketId>,
    markets_writable: Seq<MarketId>,
    market: MarketId,
)
    ensures
        asks_for(requests(user, markets_readable, markets_writable), market) <==> involves(
            user,
            markets_readable,
            markets_writable,
            market,
        ),
{
    let a = market_requests(markets_writable, true);
    let b = market_requests(markets_readable, false);
    let c = spot_requests(user.spot_positions);
    let d = perp_requests(user.perp_positions);
    let reqs = requests(user, markets_readable, markets_writable);
    what_is_asked_for(user, markets_readable, markets_writable);
    if involves(user, markets_readable, markets_writable, market) {
        if markets_writable.contains(market) {
            let i = choose|i: int| 0 <= i < markets_writable.len() && markets_writable[i] == market;
            assert(asks_for(reqs, markets_writable[i]));
        } else if markets_readable.contains(market) {
            let i = choose|i: int| 0 <= i < markets_readable.len() && markets_readable[i] == market;
            assert(asks_for(reqs, markets_readable[i]));
        } else if market.kind == MarketType::Spot && exists|i: int|
            0 <= i < user.spot_positions.len() && !(#[trigger] user.spot_positions[i]).available
                && user.spot_positions[i].market_index == market.index {
            let i = choose|i: int|
                0 <= i < user.spot_positions.len() && !(
                #[trigger] user.spot_positions[i]).available && user.spot_positions[i].market_index
                    == market.index;
            assert(market == (MarketId {
                index: user.spot_positions[i].market_index,
                kind: MarketType::Spot,
            }));
        } else if market.kind == MarketType::Perp {
            let i = choose|i: int|
                0 <= i < user.perp_positions.len() && !(
                #[trigger] user.perp_positions[i]).available && user.perp_positions[i].market_index
                    == market.index;
            assert(market == (MarketId {
                index: user.perp_positions[i].market_index,
                kind: MarketType::Perp,
            }));
        } else {
            assert(market == quote_request().market);
        }
    }
    if asks_for(reqs, market) {
        let i = choose|i: int| 0 <= i < reqs.len() && (#[trigger] reqs[i]).market == market;
        if i < a.len() {
            assert(reqs[i] == a[i]);
            assert(markets_writable[i] == market);
        } else if i < a.len() + b.len() {
            assert(reqs[i] == b[i - a.len()]);
            assert(markets_readable[i - a.len()] == market);
        } else if i < a.len() + b.len() + c.len() {
            let k = i - a.len() - b.len();
            assert(reqs[i] == c[k]);
            let n = lemma_filter_origin(user.spot_positions, |p: SpotPosition| !p.available, k);
            assert(user.spot_positions[n].market_index == market.index);
        } else if i < a.len() + b.len() + c.len() + d.len() {
            let k = i - a.len() - b.len() - c.len();
            assert(reqs[i] == d[k]);
            let n = lemma_filter_origin(user.perp_positions, |p: PerpPosition| !p.available, k);
            assert(user.perp_positions[n].market_index == market.index);
        } else {
            assert(reqs[i] == quote_request());
        }
    }
}

/// An instruction can be built exactly where the table knows every market that it involves.
pub proof fn instructions_need_the_markets_they_involve(
    context: Context,
    user: UserData,
    markets_readable: Seq<MarketId>,
    markets_writable: Seq<MarketId>,
    table: MarketTable,
)
    ensures
        supported(requests(user, markets_readable, markets_writable), context, table)
            <==> forall|market: MarketId| #[trigger]
            involves(user, markets_readable, markets_writable, market) ==> table.accounts_of(
                context,
                market,
            ) is Some,
{
    let reqs = requests(user, markets_readable, markets_writable);
    if supported(reqs, context, table) {
        assert forall|market: MarketId| #[trigger]
            involves(user, markets_readable, markets_writable, market) implies table.accounts_of(
            context,
            market,
        ) is Some by {
            lemma_asks_for_what_it_involves(user, markets_readable, markets_writable, market);
            let i = choose|i: int| 0 <= i < reqs.len() && (#[trigger] reqs[i]).market == market;
            assert(table.accounts_of(context, reqs[i].market) is Some);
        }
    }
    if forall|market: MarketId| #[trigger]
        involves(user, markets_readable, markets_writable, market) ==> table.accounts_of(
            context,
            market,
        ) is Some {
        assert forall|i: int| 0 <= i < reqs.len() implies table.accounts_of(
            context,
            (#[trigger] reqs[i]).market,
        ) is Some by {
            assert(asks_for(reqs, reqs[i].market));
            lemma_asks_for_what_it_involves(
                user,
                markets_readable,
                markets_writable,
                reqs[i].market,
            );
        }
    }
}

/// Of every market that an instruction involves, the account is listed among those of its kind, and
/// the oracle among the oracles.
pub proof fn involved_markets_are_listed(
    context: Context,
    user: UserData,
    markets_readable: Seq<MarketId>,
    markets_writable: Seq<MarketId>,
    table: MarketTable,
    market: MarketId,
)
    requires
        supported(requests(user, markets_readable, markets_writable), context, table),
        involves(user, markets_readable, markets_writable, market),
    ensures
        ({
            let list = remaining_accounts(
                context,
                user,
                markets_readable,
                markets_writable,
                table,
            );
            let accounts = table.accounts_of(context, market)->0;
            &&& table.accounts_of(context, market) is Some
            &&& exists|k: int|
                0 <= k < list.len() && match market.kind {
                    MarketType::Spot => #[trigger] list[k] matches RemainingAccount::Spot {
                        pubkey,
                        ..
                    } && pubkey == accounts.account,
                    MarketType::Perp => list[k] matches RemainingAccount::Perp { pubkey, .. }
                        && pubkey == accounts.account,
                }
            &&& exists|k: int|
                0 <= k < list.len() && #[trigger] list[k] == (RemainingAccount::Oracle {
                    pubkey: accounts.oracle,
                })
        }),
{
    let list = remaining_accounts(context, user, markets_readable, markets_writable, table);
    let accounts = table.accounts_of(context, market)->0;
    lemma_asks_for_what_it_involves(user, markets_readable, markets_writable, market);
    requested_market_is_listed(context, user, markets_readable, markets_writable, table, market);
    let own = market_entry(accounts, MarketRequest { market, writable: false });
    let k = lemma_listed_at(list, own);
    assert(list[k].same_key(own));
    let n = lemma_listed_at(list, oracle_entry(accounts));
    assert(list[n] == oracle_entry(accounts));
}

/// Nothing else is listed: an oracle is that of a market that the instruction involves, and a spot
/// or perp account that of such a market of its own kind.
pub proof fn only_involved_markets_are_listed(
    context: Context,
    user: UserData,
    markets_readable: Seq<MarketId>,
    markets_writable: Seq<MarketId>,
    table: MarketTable,
    k: int,
)
    requires
        0 <= k < remaining_accounts(
            context,
            user,
            markets_readable,
            markets_writable,
            table,
        ).len(),
    ensures
        exists|market: MarketId| #[trigger]
            involves(user, markets_readable, markets_writable, market) && table.accounts_of(
                context,
                market,
            ) is Some && match remaining_accounts(
                context,
                user,
                markets_readable,
                markets_writable,
                table,
            )[k] {
                RemainingAccount::Oracle { pubkey } => pubkey == table.accounts_of(
                    context,
                    market,
                )->0.oracle,
                RemainingAccount::Spot { pubkey, .. } => market.kind == MarketType::Spot && pubkey
                    == table.accounts_of(context, market)->0.account,
                RemainingAccount::Perp { pubkey, .. } => market.kind == MarketType::Perp && pubkey
                    == table.accounts_of(context, market)->0.account,
            },
{
    let reqs = requests(user, markets_readable, markets_writable);
    let list = remaining_accounts(context, user, markets_readable, markets_writable, table);
    only_requested_accounts_are_listed(
        context,
        user,
        markets_readable,
        markets_writable,
        table,
        k,
    );
    let i = choose|i: int| #[trigger] entry_of(reqs, context, table, i, list[k]);
    let market = reqs[i].market;
    assert(asks_for(reqs, market));
    lemma_asks_for_what_it_involves(user, markets_readable, markets_writable, market);
    assert(involves(user, markets_readable, markets_writable, market));
}

/// A spot or perp account is listed to be written exactly where it is the account of a market of its
/// kind that the instruction writes, however often it is read too. Oracles are only read.
pub proof fn exactly_the_written_markets_are_writable(
    context: Context,
    user: UserData,
    markets_readable: Seq<MarketId>,
    markets_writable: Seq<MarketId>,
    table: MarketTable,
    k: int,
)
    requires
        supported(requests(user, markets_readable, markets_writable), context, table),
        0 <= k < remaining_accounts(
            context,
            user,
            markets_readable,
            markets_writable,
            table,
        ).len(),
    ensures
        match remaining_accounts(context, user, markets_readable, markets_writable, table)[k] {
            RemainingAccount::Oracle { .. } => true,
            RemainingAccount::Spot { pubkey, writable } => writable <==> exists|i: int|
                0 <= i < markets_writable.len() && (#[trigger] markets_writable[i]).kind
                    == MarketType::Spot && table.accounts_of(context, markets_writable[i]) is Some
                    && table.accounts_of(context, markets_writable[i])->0.account == pubkey,
            RemainingAccount::Perp { pubkey, writable } => writable <==> exists|i: int|
                0 <= i < markets_writable.len() && (#[trigger] markets_writable[i]).kind
                    == MarketType::Perp && table.accounts_of(context, markets_writable[i]) is Some
                    && table.accounts_of(context, markets_writable[i])->0.account == pubkey,
        },
{
    let list = remaining_accounts(context, user, markets_readable, markets_writable, table);
    let x = list[k];
    if x.writable() {
        only_written_markets_are_writable(
            context,
            user,
            markets_readable,
            markets_writable,
            table,
            k,
        );
        let written = market_requests(markets_writable, true);
        let i = choose|i: int|
            0 <= i < markets_writable.len() && entry_of(written, context, table, i, x);
        assert(written[i].market == markets_writable[i]);
    } else if exists|i: int|
        0 <= i < markets_writable.len() && table.accounts_of(
            context,
            #[trigger] markets_writable[i],
        ) is Some && table.accounts_of(context, markets_writable[i])->0.account == x.address() && (
        markets_writable[i].kind == MarketType::Spot <==> x is Spot) && (markets_writable[i].kind
            == MarketType::Perp <==> x is Perp) {
        let i = choose|i: int|
            0 <= i < markets_writable.len() && table.accounts_of(
                context,
                #[trigger] markets_writable[i],
            ) is Some && table.accounts_of(context, markets_writable[i])->0.account == x.address()
                && (markets_writable[i].kind == MarketType::Spot <==> x is Spot) && (
            markets_writable[i].kind == MarketType::Perp <==> x is Perp);
        written_market_is_writable(
            context,
            user,
            markets_readable,
            markets_writable,
            table,
            i,
        );
        remaining_accounts_are_ordered(context, user, markets_readable, markets_writable, table);
        let accounts = table.accounts_of(context, markets_writable[i])->0;
        let entry = market_entry(
            accounts,
            MarketRequest { market: markets_writable[i], writable: true },
        );
        let n = choose|n: int| 0 <= n < list.len() && list[n] == entry;
        assert(n == k) by {
            if n < k {
                assert(list[n].before(list[k]));
                lemma_precedes_irreflexive(x.address()@);
            }
            if k < n {
                assert(list[k].before(list[n]));
                lemma_precedes_irreflexive(x.address()@);
            }
        }
    }
}

/// Oracles are listed first, then spot markets, then perp markets, and each kind by address, from
/// the smallest on, without repetition.
pub proof fn accounts_are_listed_in_the_programs_order(
    context: Context,
    user: UserData,
    markets_readable: Seq<MarketId>,
    markets_writable: Seq<MarketId>,
    table: MarketTable,
    i: int,
    j: int,
)
    requires
        0 <= i < j < remaining_accounts(
            context,
            user,
            markets_readable,
            markets_writable,
            table,
        ).len(),
    ensures
        ({
            let list = remaining_accounts(
                context,
                user,
                markets_readable,
                markets_writable,
                table,
            );
            match (list[i], list[j]) {
                (RemainingAccount::Oracle { pubkey: a }, RemainingAccount::Oracle { pubkey: b })
                    => precedes(a@, b@),
                (RemainingAccount::Spot { pubkey: a, .. }, RemainingAccount::Spot { pubkey: b, .. })
                    => precedes(a@, b@),
                (RemainingAccount::Perp { pubkey: a, .. }, RemainingAccount::Perp { pubkey: b, .. })
                    => precedes(a@, b@),
                (RemainingAccount::Oracle { .. }, _) => true,
                (RemainingAccount::Spot { .. }, RemainingAccount::Perp { .. }) => true,
                _ => false,
            }
        }),
{
    remaining_accounts_are_ordered(context, user, markets_readable, markets_writable, table);
    let list = remaining_accounts(context, user, markets_readable, markets_writable, table);
    assert(list[i].before(list[j]));
}

/// Each listed account is sent, in its place, with its own address and as written where it is listed
/// so, and none signs.
pub proof fn listed_accounts_are_sent_as_they_are(list: Seq<RemainingAccount>, k: int)
    requires
        0 <= k < list.len(),
    ensures
        metas(list).len() == list.len(),
        match list[k] {
            RemainingAccount::Oracle { pubkey } => metas(list)[k] == (AccountMeta {
                pubkey,
                is_signer: false,
                is_writable: false,
            }),
            RemainingAccount::Spot { pubkey, writable } => metas(list)[k] == (AccountMeta {
                pubkey,
                is_signer: false,
                is_writable: writable,
            }),
            RemainingAccount::Perp { pubkey, writable } => metas(list)[k] == (AccountMeta {
                pubkey,
                is_signer: false,
                is_writable: writable,
            }),
        },
{
}

} // verus!
