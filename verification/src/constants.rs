//! Fixed addresses of the program, and the table of markets that it trades.
use crate::pubkey::Pubkey;
use crate::types::{Context, MarketId, MarketType};
use vstd::prelude::*;

verus! {

/// The bytes of the program's address.
pub const PROGRAM_ID: [u8; 32] = [
    9, 84, 219, 190, 158, 201, 96, 201, 138, 122, 41, 63, 226, 19, 54, 150, 111, 225, 128, 209, 81,
    174, 75, 129, 121, 86, 31, 137, 133, 74, 83, 246,
];

/// The bytes of the address of the program's global state account.
pub const STATE_ACCOUNT: [u8; 32] = [
    74, 62, 239, 75, 3, 200, 42, 113, 89, 158, 160, 122, 22, 238, 75, 207, 109, 206, 49, 53, 125,
    132, 96, 178, 172, 27, 212, 195, 169, 134, 12, 157,
];

/// The index of the quote (USDC) spot market.
pub const QUOTE_SPOT_MARKET_INDEX: u16 = 0;

/// The program's address.
pub fn program_id() -> (r: Pubkey)
    ensures
        r == (Pubkey { bytes: PROGRAM_ID }),
{
    Pubkey { bytes: PROGRAM_ID }
}

/// The address of the program's global state account.
pub fn state_account() -> (r: Pubkey)
    ensures
        r == (Pubkey { bytes: STATE_ACCOUNT }),
{
    Pubkey { bytes: STATE_ACCOUNT }
}

/// What the SDK knows of a spot market.
#[derive(Clone, Copy, Debug, PartialEq, Eq)]
pub struct SpotMarketConfig {
    pub market_index: u16,
    /// The market's own account.
    pub account: Pubkey,
    /// The account of the market's price oracle.
    pub oracle: Pubkey,
}

/// What the SDK knows of a perp market.
#[derive(Clone, Copy, Debug, PartialEq, Eq)]
pub struct PerpMarketConfig {
    pub market_index: u16,
    /// The market's own account.
    pub account: Pubkey,
    /// The account of the market's price oracle.
    pub oracle: Pubkey,
}

/// The accounts of one market.
#[derive(Clone, Copy, Debug, PartialEq, Eq)]
pub struct MarketAccounts {
    pub account: Pubkey,
    pub oracle: Pubkey,
}

/// The markets of each deployment.
#[derive(Debug, PartialEq, Eq)]
pub struct MarketTable {
    pub dev_spot: Vec<SpotMarketConfig>,
    pub dev_perp: Vec<PerpMarketConfig>,
    pub main_spot: Vec<SpotMarketConfig>,
    pub main_perp: Vec<PerpMarketConfig>,
}

/// The first spot market in `markets` with index `market_index`.
pub open spec fn spot_by_index(markets: Seq<SpotMarketConfig>, market_index: u16) -> Option<
    SpotMarketConfig,
>
    decreases markets.len(),
{
    if markets.len() == 0 {
        None
    } else if markets[0].market_index == market_index {
        Some(markets[0])
    } else {
        spot_by_index(markets.drop_first(), market_index)
    }
}

/// The first perp market in `markets` with index `market_index`.
pub open spec fn perp_by_index(markets: Seq<PerpMarketConfig>, market_index: u16) -> Option<
    PerpMarketConfig,
>
    decreases markets.len(),
{
    if markets.len() == 0 {
        None
    } else if markets[0].market_index == market_index {
        Some(markets[0])
    } else {
        perp_by_index(markets.drop_first(), market_index)
    }
}

impl MarketTable {
    /// The spot markets of a deployment.
    pub open spec fn spot_markets(&self, context: Context) -> Seq<SpotMarketConfig> {
        match context {
            Context::Dev => self.dev_spot@,
            Context::Main => self.main_spot@,
        }
    }

    /// The perp markets of a deployment.
    pub open spec fn perp_markets(&self, context: Context) -> Seq<PerpMarketConfig> {
        match context {
            Context::Dev => self.dev_perp@,
            Context::Main => self.main_perp@,
        }
    }

    /// The accounts of a market, where the table has the market.
    pub open spec fn accounts_of(&self, context: Context, market: MarketId) -> Option<
        MarketAccounts,
    > {
        match market.kind {
            MarketType::Spot => match spot_by_index(self.spot_markets(context), market.index) {
                Some(c) => Some(MarketAccounts { account: c.account, oracle: c.oracle }),
                None => None,
            },
            MarketType::Perp => match perp_by_index(self.perp_markets(context), market.index) {
                Some(c) => Some(MarketAccounts { account: c.account, oracle: c.oracle }),
                None => None,
            },
        }
    }

    /// Looks a spot market up by its index.
    pub fn spot_market_config_by_index(&self, context: Context, market_index: u16) -> (r: Option<
        SpotMarketConfig,
    >)
        ensures
            r == spot_by_index(self.spot_markets(context), market_index),
    {
        let markets: &Vec<SpotMarketConfig> = match context {
            Context::Dev => &self.dev_spot,
            Context::Main => &self.main_spot,
        };
        let mut i: usize = 0;
        assert(markets@.skip(0) =~= markets@);
        while i < markets.len()
            invariant
                0 <= i <= markets@.len(),
                markets@ == self.spot_markets(context),
                spot_by_index(markets@, market_index) == spot_by_index(
                    markets@.skip(i as int),
                    market_index,
                ),
            decreases markets@.len() - i,
        {
            if markets[i].market_index == market_index {
                return Some(markets[i]);
            }
            assert(markets@.skip(i as int).drop_first() =~= markets@.skip(i + 1));
            i += 1;
        }
        None
    }

    /// Looks a perp market up by its index.
    pub fn perp_market_config_by_index(&self, context: Context, market_index: u16) -> (r: Option<
        PerpMarketConfig,
    >)
        ensures
            r == perp_by_index(self.perp_markets(context), market_index),
    {
        let markets: &Vec<PerpMarketConfig> = match context {
            Context::Dev => &self.dev_perp,
            Context::Main => &self.main_perp,
        };
        let mut i: usize = 0;
        assert(markets@.skip(0) =~= markets@);
        while i < markets.len()
            invariant
                0 <= i <= markets@.len(),
                markets@ == self.perp_markets(context),
                perp_by_index(markets@, market_index) == perp_by_index(
                    markets@.skip(i as int),
                    market_index,
                ),
            decreases markets@.len() - i,
        {
            if markets[i].market_index == market_index {
                return Some(markets[i]);
            }
            assert(markets@.skip(i as int).drop_first() =~= markets@.skip(i + 1));
            i += 1;
        }
        None
    }

    /// Looks the accounts of a market up.
    pub fn market_accounts(&self, context: Context, market: MarketId) -> (r: Option<MarketAccounts>)
        ensures
            r == self.accounts_of(context, market),
    {
        match market.kind {
            MarketType::Spot => match self.spot_market_config_by_index(context, market.index) {
                Some(c) => Some(MarketAccounts { account: c.account, oracle: c.oracle }),
                None => None,
            },
            MarketType::Perp => match self.perp_market_config_by_index(context, market.index) {
                Some(c) => Some(MarketAccounts { account: c.account, oracle: c.oracle }),
                None => None,
            },
        }
    }
}

/// A lookup among spot markets finds the first record with the index, and nothing only where no
/// record has it.
pub proof fn spot_lookup_finds_the_first(markets: Seq<SpotMarketConfig>, market_index: u16)
    ensures
        match spot_by_index(markets, market_index) {
            Some(c) => exists|i: int|
                {
                    &&& 0 <= i < markets.len()
                    &&& #[trigger] markets[i] == c
                    &&& markets[i].market_index == market_index
                    &&& forall|j: int|
                        0 <= j < i ==> (#[trigger] markets[j]).market_index != market_index
                },
            None => forall|i: int|
                0 <= i < markets.len() ==> (#[trigger] markets[i]).market_index != market_index,
        },
    decreases markets.len(),
{
    if markets.len() > 0 {
        let rest = markets.drop_first();
        if markets[0].market_index != market_index {
            spot_lookup_finds_the_first(rest, market_index);
            match spot_by_index(rest, market_index) {
                Some(c) => {
                    let i = choose|i: int|
                        {
                            &&& 0 <= i < rest.len()
                            &&& #[trigger] rest[i] == c
                            &&& rest[i].market_index == market_index
                            &&& forall|j: int|
                                0 <= j < i ==> (#[trigger] rest[j]).market_index != market_index
                        };
                    assert(markets[i + 1] == c);
                    assert forall|j: int| 0 <= j < i + 1 implies (
                    #[trigger] markets[j]).market_index != market_index by {
                        if j > 0 {
                            assert(rest[j - 1] == markets[j]);
                        }
                    }
                },
                None => {
                    assert forall|i: int| 0 <= i < markets.len() implies (
                    #[trigger] markets[i]).market_index != market_index by {
                        if i > 0 {
                            assert(rest[i - 1] == markets[i]);
                        }
                    }
                },
            }
        }
    }
}

/// A lookup among perp markets finds the first record with the index, and nothing only where no
/// record has it.
pub proof fn perp_lookup_finds_the_first(markets: Seq<PerpMarketConfig>, market_index: u16)
    ensures
        match perp_by_index(markets, market_index) {
            Some(c) => exists|i: int|
                {
                    &&& 0 <= i < markets.len()
                    &&& #[trigger] markets[i] == c
                    &&& markets[i].market_index == market_index
                    &&& forall|j: int|
                        0 <= j < i ==> (#[trigger] markets[j]).market_index != market_index
                },
            None => forall|i: int|
                0 <= i < markets.len() ==> (#[trigger] markets[i]).market_index != market_index,
        },
    decreases markets.len(),
{
    if markets.len() > 0 {
        let rest = markets.drop_first();
        if markets[0].market_index != market_index {
            perp_lookup_finds_the_first(rest, market_index);
            match perp_by_index(rest, market_index) {
                Some(c) => {
                    let i = choose|i: int|
                        {
                            &&& 0 <= i < rest.len()
                            &&& #[trigger] rest[i] == c
                            &&& rest[i].market_index == market_index
                            &&& forall|j: int|
                                0 <= j < i ==> (#[trigger] rest[j]).market_index != market_index
                        };
                    assert(markets[i + 1] == c);
                    assert forall|j: int| 0 <= j < i + 1 implies (
                    #[trigger] markets[j]).market_index != market_index by {
                        if j > 0 {
                            assert(rest[j - 1] == markets[j]);
                        }
                    }
                },
                None => {
                    assert forall|i: int| 0 <= i < markets.len() implies (
                    #[trigger] markets[i]).market_index != market_index by {
                        if i > 0 {
                            assert(rest[i - 1] == markets[i]);
                        }
                    }
                },
            }
        }
    }
}

/// The accounts of a market are those of its first record in the table of its own deployment and
/// kind, and a market has none only where that table has no record with its index.
pub proof fn market_accounts_come_from_its_own_record(
    table: MarketTable,
    context: Context,
    market: MarketId,
)
    ensures
        match (context, market.kind) {
            (Context::Dev, MarketType::Spot) => match table.accounts_of(context, market) {
                Some(a) => exists|i: int|
                    {
                        &&& 0 <= i < table.dev_spot@.len()
                        &&& (#[trigger] table.dev_spot@[i]).market_index == market.index
                        &&& a.account == table.dev_spot@[i].account
                        &&& a.oracle == table.dev_spot@[i].oracle
                        &&& forall|j: int|
                            0 <= j < i ==> (#[trigger] table.dev_spot@[j]).market_index
                                != market.index
                    },
                None => forall|i: int|
                    0 <= i < table.dev_spot@.len() ==> (#[trigger] table.dev_spot@[i]).market_index
                        != market.index,
            },
            (Context::Dev, MarketType::Perp) => match table.accounts_of(context, market) {
                Some(a) => exists|i: int|
                    {
                        &&& 0 <= i < table.dev_perp@.len()
                        &&& (#[trigger] table.dev_perp@[i]).market_index == market.index
                        &&& a.account == table.dev_perp@[i].account
                        &&& a.oracle == table.dev_perp@[i].oracle
                        &&& forall|j: int|
                            0 <= j < i ==> (#[trigger] table.dev_perp@[j]).market_index
                                != market.index
                    },
                None => forall|i: int|
                    0 <= i < table.dev_perp@.len() ==> (#[trigger] table.dev_perp@[i]).market_index
                        != market.index,
            },
            (Context::Main, MarketType::Spot) => match table.accounts_of(context, market) {
                Some(a) => exists|i: int|
                    {
                        &&& 0 <= i < table.main_spot@.len()
                        &&& (#[trigger] table.main_spot@[i]).market_index == market.index
                        &&& a.account == table.main_spot@[i].account
                        &&& a.oracle == table.main_spot@[i].oracle
                        &&& forall|j: int|
                            0 <= j < i ==> (#[trigger] table.main_spot@[j]).market_index
                                != market.index
                    },
                None => forall|i: int|
                    0 <= i < table.main_spot@.len() ==> (#[trigger] table.main_spot@[i]).market_index
                        != market.index,
            },
            (Context::Main, MarketType::Perp) => match table.accounts_of(context, market) {
                Some(a) => exists|i: int|
                    {
                        &&& 0 <= i < table.main_perp@.len()
                        &&& (#[trigger] table.main_perp@[i]).market_index == market.index
                        &&& a.account == table.main_perp@[i].account
                        &&& a.oracle == table.main_perp@[i].oracle
                        &&& forall|j: int|
                            0 <= j < i ==> (#[trigger] table.main_perp@[j]).market_index
                                != market.index
                    },
                None => forall|i: int|
                    0 <= i < table.main_perp@.len() ==> (#[trigger] table.main_perp@[i]).market_index
                        != market.index,
            },
        },
{
    match market.kind {
        MarketType::Spot => {
            spot_lookup_finds_the_first(table.spot_markets(context), market.index);
        },
        MarketType::Perp => {
            perp_lookup_finds_the_first(table.perp_markets(context), market.index);
        },
    }
}

/// Lookups in a table answer from its own records: the first one with the index in the list of the
/// deployment and kind.
pub proof fn lookups_answer_from_the_table(
    table: MarketTable,
    context: Context,
    market_index: u16,
    market: MarketId,
    spot: Option<SpotMarketConfig>,
    perp: Option<PerpMarketConfig>,
    accounts: Option<MarketAccounts>,
)
    requires
        call_ensures(
            MarketTable::spot_market_config_by_index,
            (&table, context, market_index),
            spot,
        ),
        call_ensures(
            MarketTable::perp_market_config_by_index,
            (&table, context, market_index),
            perp,
        ),
        call_ensures(MarketTable::market_accounts, (&table, context, market), accounts),
    ensures
        context == Context::Dev ==> spot == spot_by_index(table.dev_spot@, market_index) && perp
            == perp_by_index(table.dev_perp@, market_index),
        context == Context::Main ==> spot == spot_by_index(table.main_spot@, market_index) && perp
            == perp_by_index(table.main_perp@, market_index),
        accounts == table.accounts_of(context, market),
{
}

} // verus!
