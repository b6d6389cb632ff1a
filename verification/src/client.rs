//! The client's state: which accounts it follows, and what it does on each event.
//!
//! The network work itself is the caller's. It asks what to do, does it, and reports what came of
//! it.
use crate::endpoint::{
    checked_ws_url, websocket_addresses_keep_host_and_security, ws_address, AccountConfig,
    AccountEncoding, Commitment,
};
use crate::pubkey::Pubkey;
use crate::solana::{message_signature, shape_of, transaction_data, try_sign};
use crate::transaction::{
    blank, fully_signed, kept_signatures, over, requires_signature_of, shape, signable,
    signer_index, signing, signing_touches_only_the_keys_own_place, why_signing_fails, MessageData,
    TransactionData, TransactionShape,
};
use crate::types::{SdkError, SdkResult};
use crate::user::{
    active_perp, active_spot, has_order_id, has_user_order_id, is_first,
    listed_orders_are_the_open_ones, listed_positions_are_the_active_ones, open_orders,
    perp_in_market, search_by_id_finds_the_first_open_order,
    search_by_market_finds_the_first_perp_position, search_by_market_finds_the_first_spot_position,
    search_by_user_id_finds_the_first_open_order, spot_in_market, Order, OrderStatus, PerpPosition,
    SpotPosition, User, UserData,
};
use crate::wallet::{public_half, Wallet};
use solana_sdk::transaction::Transaction;
use vstd::prelude::*;

verus! {

/// What the network answered to a request for an account.
#[derive(Debug, PartialEq, Eq)]
pub enum FetchReply {
    /// The request failed.
    Failed(String),
    /// The account is there but is not a user account.
    Undecodable,
    Account(User),
}

/// What happened on the way to following an account.
#[derive(Debug, PartialEq, Eq)]
pub enum SubscribeEvent {
    /// The caller wants to follow the account.
    Begin,
    /// The account data came, or could not be had.
    Fetched(SdkResult<User>),
    /// The stream of updates for a feed was opened, or could not be.
    Opened { feed: u64, result: Result<(), String> },
    /// An update came in over the stream of a feed.
    Updated { feed: u64, user: User },
}

/// What to do next to follow an account.
#[derive(Debug, PartialEq, Eq)]
pub enum SubscribeAction {
    /// Nothing more: report this to the caller.
    Finish(SdkResult<()>),
    /// Get the account data.
    Fetch,
    /// Open a stream of updates for this feed.
    OpenStream { feed: u64 },
    /// Wait for the next update of this feed.
    Listen { feed: u64 },
    /// Stop listening: another feed has taken over.
    Close,
}

/// What an event holds.
pub enum SubscribeEventData {
    Begin,
    Fetched(SdkResult<UserData>),
    Opened { feed: u64, result: Result<(), String> },
    Updated { feed: u64, user: UserData },
}

impl View for SubscribeEvent {
    type V = SubscribeEventData;

    open spec fn view(&self) -> SubscribeEventData {
        match *self {
            SubscribeEvent::Begin => SubscribeEventData::Begin,
            SubscribeEvent::Fetched(result) => match result {
                Ok(user) => SubscribeEventData::Fetched(Ok(user@)),
                Err(e) => SubscribeEventData::Fetched(Err(e)),
            },
            SubscribeEvent::Opened { feed, result } => SubscribeEventData::Opened { feed, result },
            SubscribeEvent::Updated { feed, user } => SubscribeEventData::Updated {
                feed,
                user: user@,
            },
        }
    }
}

/// A followed account: its latest data, and the feed that updates it.
pub struct CacheData {
    pub user: UserData,
    pub feed: u64,
}

/// What a client's state holds.
#[verifier::ext_equal]
pub struct BackendData {
    pub rpc_url: Seq<char>,
    pub ws_url: Seq<char>,
    pub cache: Map<Pubkey, CacheData>,
    /// The number of the next feed.
    pub next_feed: u64,
}

impl BackendData {
    /// The account is followed.
    pub open spec fn follows(self, account: Pubkey) -> bool {
        self.cache.dom().contains(account)
    }

    /// The data of an account: what the network replied where it was asked, and else the latest
    /// data of the followed account.
    pub open spec fn account_data(self, account: Pubkey, reply: Option<FetchReply>) -> SdkResult<
        UserData,
    > {
        match reply {
            None => Ok(self.cache[account].user),
            Some(FetchReply::Failed(message)) => Err(SdkError::Rpc(message)),
            Some(FetchReply::Undecodable) => Err(SdkError::InvalidAccount),
            Some(FetchReply::Account(user)) => Ok(user@),
        }
    }

    /// The state with new data for an account.
    pub open spec fn with(self, account: Pubkey, user: UserData, feed: u64) -> BackendData {
        BackendData { cache: self.cache.insert(account, CacheData { user, feed }), ..self }
    }

    /// Feed `feed` is the one that follows the account.
    pub open spec fn is_current(self, account: Pubkey, feed: u64) -> bool {
        self.follows(account) && self.cache[account].feed == feed
    }

    /// The state in which a new feed follows an account.
    pub open spec fn following(self, account: Pubkey, user: UserData) -> BackendData {
        BackendData {
            next_feed: if self.next_feed == u64::MAX {
                0
            } else {
                (self.next_feed + 1) as u64
            },
            ..self.with(account, user, self.next_feed)
        }
    }

    /// The state in which an account is not followed.
    pub open spec fn without(self, account: Pubkey) -> BackendData {
        BackendData { cache: self.cache.remove(account), ..self }
    }

    /// The state after an event.
    pub open spec fn after(self, account: Pubkey, event: SubscribeEventData) -> BackendData {
        match event {
            SubscribeEventData::Fetched(Ok(user)) => self.following(account, user),
            SubscribeEventData::Opened { feed, result: Err(_) } => if self.is_current(
                account,
                feed,
            ) {
                self.without(account)
            } else {
                self
            },
            SubscribeEventData::Updated { feed, user } => if self.is_current(account, feed) {
                self.with(account, user, feed)
            } else {
                self
            },
            _ => self,
        }
    }

    /// What to do on an event.
    pub open spec fn action(self, account: Pubkey, event: SubscribeEventData) -> SubscribeAction {
        match event {
            SubscribeEventData::Begin => if self.follows(account) {
                SubscribeAction::Finish(Ok(()))
            } else {
                SubscribeAction::Fetch
            },
            SubscribeEventData::Fetched(Ok(_)) => SubscribeAction::OpenStream {
                feed: self.next_feed,
            },
            SubscribeEventData::Fetched(Err(e)) => SubscribeAction::Finish(Err(e)),
            SubscribeEventData::Opened { feed, result: Ok(_) } => SubscribeAction::Listen { feed },
            SubscribeEventData::Opened { result: Err(message), .. } => SubscribeAction::Finish(
                Err(SdkError::Ws(message)),
            ),
            SubscribeEventData::Updated { feed, .. } => if self.is_current(account, feed) {
                SubscribeAction::Listen { feed }
            } else {
                SubscribeAction::Close
            },
        }
    }
}

/// Once followed, an account stays followed, whatever happens to whichever account, unless the
/// stream of its own feed cannot be opened.
pub proof fn followed_accounts_stay_followed(
    state: BackendData,
    account: Pubkey,
    event: SubscribeEventData,
    other: Pubkey,
)
    requires
        state.follows(other),
        !(other == account && (event matches SubscribeEventData::Opened { feed, result: Err(_) }
            && state.is_current(account, feed))),
    ensures
        state.after(account, event).follows(other),
{
}

/// Where the stream of an account's feed cannot be opened, the caller is told so, the account is
/// not followed, and asking to follow it again starts from the beginning.
pub proof fn failed_streams_can_be_tried_again(
    state: BackendData,
    account: Pubkey,
    feed: u64,
    message: String,
)
    requires
        state.is_current(account, feed),
    ensures
        ({
            let event = SubscribeEventData::Opened { feed, result: Err(message) };
            let next = state.after(account, event);
            &&& state.action(account, event) == SubscribeAction::Finish(Err(SdkError::Ws(message)))
            &&& !next.follows(account)
            &&& next.action(account, SubscribeEventData::Begin) == SubscribeAction::Fetch
        }),
{
}

/// A caller is told at once that an account is followed only where it is.
pub proof fn success_means_followed(
    state: BackendData,
    account: Pubkey,
    event: SubscribeEventData,
)
    requires
        state.action(account, event) == SubscribeAction::Finish(Ok(())),
    ensures
        state.follows(account),
        state.after(account, event) == state,
{
}

/// An event on one account changes nothing of another.
pub proof fn other_accounts_are_untouched(
    state: BackendData,
    account: Pubkey,
    event: SubscribeEventData,
    other: Pubkey,
)
    requires
        other != account,
    ensures
        state.after(account, event).follows(other) == state.follows(other),
        state.follows(other) ==> state.after(account, event).cache[other] == state.cache[other],
{
}

/// Asking to follow an account that is followed already does nothing.
pub proof fn following_twice_is_following_once(state: BackendData, account: Pubkey)
    requires
        state.follows(account),
    ensures
        state.after(account, SubscribeEventData::Begin) == state,
        state.action(account, SubscribeEventData::Begin) == SubscribeAction::Finish(Ok(())),
{
}

/// An account becomes followed only by its data arriving.
pub proof fn only_fetched_accounts_are_followed(
    state: BackendData,
    account: Pubkey,
    event: SubscribeEventData,
    other: Pubkey,
)
    requires
        !state.follows(other),
        state.after(account, event).follows(other),
    ensures
        other == account,
        event matches SubscribeEventData::Fetched(Ok(_)),
{
}

/// Once an account's data has arrived, queries are answered from it without asking the network.
pub proof fn followed_queries_read_what_was_fetched(
    state: BackendData,
    account: Pubkey,
    user: UserData,
)
    ensures
        ({
            let next = state.after(account, SubscribeEventData::Fetched(Ok(user)));
            next.follows(account) && next.account_data(account, None) == SdkResult::Ok(user)
        }),
{
}

/// After an update of the current feed, queries are answered from it.
pub proof fn followed_queries_read_the_latest_update(
    state: BackendData,
    account: Pubkey,
    feed: u64,
    user: UserData,
)
    requires
        state.is_current(account, feed),
    ensures
        ({
            let next = state.after(account, SubscribeEventData::Updated { feed, user });
            next.is_current(account, feed) && next.account_data(account, None) == SdkResult::Ok(
                user,
            )
        }),
{
}

/// A feed that another one has replaced changes nothing more. Left out is the one number that the
/// next feed would share with it, which needs the numbers to have gone round.
pub proof fn replaced_feeds_are_closed(
    state: BackendData,
    account: Pubkey,
    feed: u64,
    fetched: UserData,
    update: UserData,
)
    requires
        state.is_current(account, feed),
        feed != state.next_feed,
    ensures
        ({
            let next = state.after(account, SubscribeEventData::Fetched(Ok(fetched)));
            let event = SubscribeEventData::Updated { feed, user: update };
            next.after(account, event) == next && next.action(account, event)
                == SubscribeAction::Close
        }),
{
}

/// What events are said to hold is all that they hold.
pub proof fn events_hold_what_they_are_said_to(event: SubscribeEvent)
    ensures
        match event {
            SubscribeEvent::Begin => event@ is Begin,
            SubscribeEvent::Fetched(Ok(user)) => event@ == SubscribeEventData::Fetched(Ok(user@)),
            SubscribeEvent::Fetched(Err(e)) => event@ == SubscribeEventData::Fetched(Err(e)),
            SubscribeEvent::Opened { feed, result } => event@ == (SubscribeEventData::Opened {
                feed,
                result,
            }),
            SubscribeEvent::Updated { feed, user } => event@ == (SubscribeEventData::Updated {
                feed,
                user: user@,
            }),
        },
{
}

/// What a query is answered from: where the network was asked, the account that it sent, or the
/// error that belongs to its reply; where it was not, the latest data of the followed account.
pub proof fn queries_are_answered_from_the_reply_or_the_cache(
    state: BackendData,
    account: Pubkey,
    message: String,
    user: User,
)
    ensures
        state.account_data(account, None) == SdkResult::Ok(state.cache[account].user),
        state.account_data(account, Some(FetchReply::Failed(message)))
            == SdkResult::<UserData>::Err(SdkError::Rpc(message)),
        state.account_data(account, Some(FetchReply::Undecodable)) == SdkResult::<UserData>::Err(
            SdkError::InvalidAccount,
        ),
        state.account_data(account, Some(FetchReply::Account(user))) == SdkResult::Ok(user@),
{
}

/// A query succeeds exactly where there is account data, with what holds of that data, and else
/// passes the error on.
pub proof fn answers_belong_to_the_data<T>(
    r: SdkResult<T>,
    data: SdkResult<UserData>,
    p: spec_fn(UserData, T) -> bool,
)
    requires
        is_answer(r, data, p),
    ensures
        data matches Ok(user) ==> (r matches Ok(x) && p(user, x)),
        data matches Err(e) ==> (r matches Err(f) && f == e),
{
}

/// An account is followed exactly where the cache holds it, and by the feed that the cache holds of
/// it.
pub proof fn the_cache_says_what_is_followed(state: BackendData, account: Pubkey, feed: u64)
    ensures
        state.follows(account) <==> state.cache.dom().contains(account),
        state.is_current(account, feed) <==> state.cache.dom().contains(account)
            && state.cache[account].feed == feed,
{
}

/// Whoever wants to follow an account that is not followed is told to fetch it, and the data that
/// comes opens a feed; an account that cannot be fetched ends the attempt with the error.
pub proof fn following_begins_with_the_account(
    state: BackendData,
    account: Pubkey,
    user: UserData,
    error: SdkError,
)
    ensures
        !state.cache.dom().contains(account) ==> state.action(account, SubscribeEventData::Begin)
            == SubscribeAction::Fetch,
        state.cache.dom().contains(account) ==> state.action(account, SubscribeEventData::Begin)
            == SubscribeAction::Finish(Ok(())),
        state.after(account, SubscribeEventData::Begin) == state,
        state.action(account, SubscribeEventData::Fetched(Ok(user)))
            == (SubscribeAction::OpenStream { feed: state.next_feed }),
        state.action(account, SubscribeEventData::Fetched(Err(error)))
            == SubscribeAction::Finish(Err(error)),
        state.after(account, SubscribeEventData::Fetched(Err(error))) == state,
{
}

/// The data that comes for an account is what the cache then holds of it, under a feed whose number
/// the next one does not get.
pub proof fn fetched_data_is_cached_under_a_new_feed(
    state: BackendData,
    account: Pubkey,
    user: UserData,
)
    ensures
        ({
            let next = state.after(account, SubscribeEventData::Fetched(Ok(user)));
            &&& next.cache.dom().contains(account)
            &&& next.cache[account].user == user
            &&& next.cache[account].feed == state.next_feed
            &&& next.next_feed != state.next_feed
            &&& state.next_feed < u64::MAX ==> next.next_feed == state.next_feed + 1
            &&& next.rpc_url == state.rpc_url
            &&& next.ws_url == state.ws_url
        }),
{
}

/// A stream that was opened is listened to, and opening it changes nothing. One that could not be
/// opened ends the attempt with the words of the error.
pub proof fn opened_streams_are_listened_to(
    state: BackendData,
    account: Pubkey,
    feed: u64,
    message: String,
)
    ensures
        state.action(account, SubscribeEventData::Opened { feed, result: Ok(()) })
            == (SubscribeAction::Listen { feed }),
        state.after(account, SubscribeEventData::Opened { feed, result: Ok(()) }) == state,
        state.action(account, SubscribeEventData::Opened { feed, result: Err(message) })
            == SubscribeAction::Finish(Err(SdkError::Ws(message))),
        !(state.cache.dom().contains(account) && state.cache[account].feed == feed)
            ==> state.after(account, SubscribeEventData::Opened { feed, result: Err(message) })
            == state,
        state.cache.dom().contains(account) && state.cache[account].feed == feed ==> {
            let next = state.after(
                account,
                SubscribeEventData::Opened { feed, result: Err(message) },
            );
            &&& !next.cache.dom().contains(account)
            &&& next.next_feed == state.next_feed
            &&& next.rpc_url == state.rpc_url
            &&& next.ws_url == state.ws_url
        },
{
}

/// An update over the feed that follows its account is taken, and the same feed is listened to
/// further, however many feeds there have been since. An update over any other feed is not taken,
/// and that feed is closed.
pub proof fn the_current_feed_is_listened_to_further(
    state: BackendData,
    account: Pubkey,
    feed: u64,
    user: UserData,
)
    ensures
        ({
            let event = SubscribeEventData::Updated { feed, user };
            let next = state.after(account, event);
            if state.cache.dom().contains(account) && state.cache[account].feed == feed {
                &&& state.action(account, event) == (SubscribeAction::Listen { feed })
                &&& next.cache.dom().contains(account)
                &&& next.cache[account].user == user
                &&& next.cache[account].feed == feed
                &&& next.next_feed == state.next_feed
                &&& next.rpc_url == state.rpc_url
                &&& next.ws_url == state.ws_url
            } else {
                &&& state.action(account, event) == SubscribeAction::Close
                &&& next == state
            }
        }),
{
}

/// What happens to one account changes nothing of what an event on another account leads to. Only
/// the number of a feed that is opened later may be another one.
pub proof fn other_accounts_change_no_action(
    state: BackendData,
    account: Pubkey,
    event: SubscribeEventData,
    other: Pubkey,
    happened: SubscribeEventData,
)
    requires
        other != account,
    ensures
        ({
            let next = state.after(other, happened);
            match event {
                SubscribeEventData::Fetched(Ok(_)) => state.action(account, event) is OpenStream
                    && next.action(account, event) is OpenStream,
                _ => next.action(account, event) == state.action(account, event),
            }
        }),
{
}

/// The state after a series of events, each on its account.
pub open spec fn run(state: BackendData, events: Seq<(Pubkey, SubscribeEventData)>) -> BackendData
    decreases events.len(),
{
    if events.len() == 0 {
        state
    } else {
        run(state, events.drop_last()).after(events.last().0, events.last().1)
    }
}

/// However much happens to other accounts, what the cache holds of an account stays.
pub proof fn events_on_others_leave_an_account_alone(
    state: BackendData,
    account: Pubkey,
    events: Seq<(Pubkey, SubscribeEventData)>,
)
    requires
        forall|i: int| 0 <= i < events.len() ==> (#[trigger] events[i]).0 != account,
    ensures
        run(state, events).cache.dom().contains(account) <==> state.cache.dom().contains(account),
        state.cache.dom().contains(account) ==> run(state, events).cache[account]
            == state.cache[account],
    decreases events.len(),
{
    if events.len() > 0 {
        let less = events.drop_last();
        assert forall|i: int| 0 <= i < less.len() implies (#[trigger] less[i]).0 != account by {
            assert(less[i] == events[i]);
        }
        events_on_others_leave_an_account_alone(state, account, less);
        other_accounts_are_untouched(run(state, less), events.last().0, events.last().1, account);
    }
}

/// A followed account is kept up to date for as long as its stream delivers, whatever happens to
/// other accounts meanwhile: its stream is listened to, each update is taken, queries are answered
/// from the latest one without asking the network, and the stream is listened to further.
pub proof fn followed_accounts_are_kept_up_to_date(
    state: BackendData,
    account: Pubkey,
    fetched: UserData,
    meanwhile: Seq<(Pubkey, SubscribeEventData)>,
    first: UserData,
    later: Seq<(Pubkey, SubscribeEventData)>,
    second: UserData,
)
    requires
        forall|i: int| 0 <= i < meanwhile.len() ==> (#[trigger] meanwhile[i]).0 != account,
        forall|i: int| 0 <= i < later.len() ==> (#[trigger] later[i]).0 != account,
    ensures
        ({
            let feed = state.next_feed;
            let begun = state.after(account, SubscribeEventData::Fetched(Ok(fetched)));
            let waiting = run(begun, meanwhile);
            let updated = waiting.after(
                account,
                SubscribeEventData::Updated { feed, user: first },
            );
            let again = run(updated, later);
            let last = again.after(account, SubscribeEventData::Updated { feed, user: second });
            let open = SubscribeEventData::Opened { feed, result: Ok(()) };
            &&& begun.action(account, open) == (SubscribeAction::Listen { feed })
            &&& waiting.account_data(account, None) == SdkResult::Ok(fetched)
            &&& waiting.action(account, SubscribeEventData::Updated { feed, user: first })
                == (SubscribeAction::Listen { feed })
            &&& again.account_data(account, None) == SdkResult::Ok(first)
            &&& again.action(account, SubscribeEventData::Updated { feed, user: second })
                == (SubscribeAction::Listen { feed })
            &&& last.account_data(account, None) == SdkResult::Ok(second)
            &&& last.action(account, SubscribeEventData::Begin) == SubscribeAction::Finish(Ok(()))
        }),
{
    let feed = state.next_feed;
    let begun = state.after(account, SubscribeEventData::Fetched(Ok(fetched)));
    events_on_others_leave_an_account_alone(begun, account, meanwhile);
    let updated = run(begun, meanwhile).after(
        account,
        SubscribeEventData::Updated { feed, user: first },
    );
    events_on_others_leave_an_account_alone(updated, account, later);
}

/// Every feed in use was numbered before the next one, and no two accounts share one.
pub open spec fn feeds_are_distinct(state: BackendData) -> bool {
    &&& forall|a: Pubkey| #[trigger]
        state.cache.dom().contains(a) ==> state.cache[a].feed < state.next_feed
    &&& forall|a: Pubkey, b: Pubkey|
        #![trigger state.cache.dom().contains(a), state.cache.dom().contains(b)]
        state.cache.dom().contains(a) && state.cache.dom().contains(b) && state.cache[a].feed
            == state.cache[b].feed ==> a == b
}

/// No two accounts ever share a feed: it holds of a client that follows nothing, and every event
/// keeps it until the numbers have gone round.
pub proof fn feeds_stay_distinct(
    state: BackendData,
    account: Pubkey,
    event: SubscribeEventData,
)
    ensures
        state.cache == Map::<Pubkey, CacheData>::empty() ==> feeds_are_distinct(state),
        feeds_are_distinct(state) && state.next_feed < u64::MAX ==> feeds_are_distinct(
            state.after(account, event),
        ),
{
}

/// An account that is fetched anew is followed by the new feed alone: the old feed's updates and
/// failures change nothing more.
pub proof fn a_new_feed_replaces_the_old_one(
    state: BackendData,
    account: Pubkey,
    fetched: UserData,
    update: UserData,
    message: String,
)
    requires
        feeds_are_distinct(state),
        state.cache.dom().contains(account),
    ensures
        ({
            let old_feed = state.cache[account].feed;
            let next = state.after(account, SubscribeEventData::Fetched(Ok(fetched)));
            let late = SubscribeEventData::Updated { feed: old_feed, user: update };
            let failed = SubscribeEventData::Opened { feed: old_feed, result: Err(message) };
            &&& next.action(account, late) == SubscribeAction::Close
            &&& next.after(account, late) == next
            &&& next.after(account, failed) == next
            &&& next.account_data(account, None) == SdkResult::Ok(fetched)
        }),
{
}

/// A followed account.
struct CachedAccount {
    account: Pubkey,
    user: User,
    feed: u64,
}

/// No account is in the list twice.
spec fn distinct(entries: Seq<CachedAccount>) -> bool {
    forall|i: int, j: int|
        0 <= i < j < entries.len() ==> (#[trigger] entries[i]).account != (
        #[trigger] entries[j]).account
}

/// The list has an entry for the account.
spec fn has_entry(entries: Seq<CachedAccount>, account: Pubkey) -> bool {
    exists|i: int| 0 <= i < entries.len() && (#[trigger] entries[i]).account == account
}

/// What the list holds for each account.
spec fn cache_map(entries: Seq<CachedAccount>) -> Map<Pubkey, CacheData> {
    Map::new(
        |account: Pubkey| has_entry(entries, account),
        |account: Pubkey|
            {
                let i = choose|i: int|
                    0 <= i < entries.len() && (#[trigger] entries[i]).account == account;
                CacheData { user: entries[i].user@, feed: entries[i].feed }
            },
    )
}

/// What the list holds for the account of an entry is what the entry holds.
proof fn lemma_cache_entry(entries: Seq<CachedAccount>, i: int)
    requires
        distinct(entries),
        0 <= i < entries.len(),
    ensures
        cache_map(entries).dom().contains(entries[i].account),
        cache_map(entries)[entries[i].account] == (CacheData {
            user: entries[i].user@,
            feed: entries[i].feed,
        }),
{
    let account = entries[i].account;
    assert(has_entry(entries, account));
    let k = choose|k: int| 0 <= k < entries.len() && (#[trigger] entries[k]).account == account;
    assert(k == i);
}

/// Provides the network facing features of the SDK.
/// It is intended to be a singleton
pub struct DriftClientBackend {
    rpc_url: String,
    ws_url: String,
    account_cache: Vec<CachedAccount>,
    next_feed: u64,
}

impl View for DriftClientBackend {
    type V = BackendData;

    closed spec fn view(&self) -> BackendData {
        BackendData {
            rpc_url: self.rpc_url@,
            ws_url: self.ws_url@,
            cache: cache_map(self.account_cache@),
            next_feed: self.next_feed,
        }
    }
}

/// The answer to a query on the account data.
pub open spec fn is_answer<T>(
    r: SdkResult<T>,
    data: SdkResult<UserData>,
    p: spec_fn(UserData, T) -> bool,
) -> bool {
    match (r, data) {
        (Ok(x), Ok(user)) => p(user, x),
        (Err(e), Err(f)) => e == f,
        _ => false,
    }
}

/// What a transaction is once a key pair has signed it over a blockhash, where that is all the
/// signatures that it needs.
pub open spec fn signed_with(tx: TransactionData, keypair: Seq<u8>, blockhash: Seq<u8>) -> Option<
    TransactionData,
> {
    signing(
        tx,
        public_half(keypair),
        message_signature(over(tx.message, blockhash), keypair),
        blockhash,
    )
}

/// The transaction can be signed, and the signature of this key pair is all that it needs.
pub open spec fn signs_with(tx: TransactionData, keypair: Seq<u8>, blockhash: Seq<u8>) -> bool {
    signable(shape(tx)) && signed_with(tx, keypair, blockhash) is Some
}

/// What signing gives: the signed transaction, or the error of a network that gave no blockhash.
pub open spec fn is_signing_result(
    tx: TransactionData,
    keypair: Seq<u8>,
    blockhash: Result<[u8; 32], String>,
    r: SdkResult<Transaction>,
) -> bool {
    match (blockhash, r) {
        (Ok(hash), Ok(signed)) => signed_with(tx, keypair, hash@) == Some(transaction_data(signed)),
        (Err(message), Err(e)) => e == SdkError::Rpc(message),
        _ => false,
    }
}

/// What signing gives where the transaction may not be signable by this key pair: nothing then.
pub open spec fn is_checked_signing_result(
    tx: TransactionData,
    keypair: Seq<u8>,
    blockhash: Result<[u8; 32], String>,
    r: Option<SdkResult<Transaction>>,
) -> bool {
    match (blockhash, r) {
        (Ok(hash), Some(result)) => {
            &&& signs_with(tx, keypair, hash@)
            &&& is_signing_result(tx, keypair, blockhash, result)
        },
        (Ok(hash), None) => !signs_with(tx, keypair, hash@),
        (Err(_), Some(result)) => is_signing_result(tx, keypair, blockhash, result),
        (Err(_), None) => false,
    }
}

/// A transaction is never signed for sending by a wallet whose signature it does not require.
pub proof fn other_wallets_do_not_sign(
    tx: TransactionData,
    keypair: Seq<u8>,
    blockhash: [u8; 32],
    r: Option<SdkResult<Transaction>>,
)
    requires
        is_checked_signing_result(tx, keypair, Ok(blockhash), r),
        !requires_signature_of(tx.message, public_half(keypair)),
    ensures
        r is None,
{
}

/// What is signed for sending is fully signed.
pub proof fn signed_transactions_are_fully_signed(
    tx: TransactionData,
    keypair: Seq<u8>,
    blockhash: [u8; 32],
    r: Option<SdkResult<Transaction>>,
)
    requires
        is_checked_signing_result(tx, keypair, Ok(blockhash), r),
    ensures
        r is None || (r matches Some(Ok(signed)) && fully_signed(transaction_data(signed))),
{
}

/// A transaction that can be signed is signed for sending unless it does not require the wallet's
/// signature, that of another key is missing, or the wallet's own is empty.
pub proof fn signing_is_refused_for_a_reason(
    tx: TransactionData,
    keypair: Seq<u8>,
    blockhash: [u8; 32],
    r: Option<SdkResult<Transaction>>,
)
    requires
        is_checked_signing_result(tx, keypair, Ok(blockhash), r),
        signable(shape(tx)),
    ensures
        r is None <==> {
            ||| !requires_signature_of(tx.message, public_half(keypair))
            ||| message_signature(over(tx.message, blockhash@), keypair) == blank(64)
            ||| exists|i: int|
                0 <= i < tx.signatures.len() && i != signer_index(tx.message, public_half(keypair))
                    && #[trigger] kept_signatures(tx, blockhash@)[i] == blank(64)
        },
{
    why_signing_fails(
        tx,
        public_half(keypair),
        message_signature(over(tx.message, blockhash@), keypair),
        blockhash@,
    );
}

/// Signing for sending: without a blockhash it fails with the network's words; with one, what is
/// sent is the transaction's own message over that blockhash, fully signed, with the signature that
/// the wallet's key pair makes over it in the place of the wallet's key.
pub proof fn what_is_sent_is_the_signed_message(
    tx: TransactionData,
    keypair: Seq<u8>,
    blockhash: Result<[u8; 32], String>,
    r: SdkResult<Transaction>,
    p: int,
)
    requires
        is_signing_result(tx, keypair, blockhash, r),
        tx.message.required_signatures <= tx.signatures.len(),
        0 <= p < tx.message.required_signatures,
        tx.message.keys[p]@ == keypair.subrange(32, 64),
        forall|j: int| 0 <= j < p ==> (#[trigger] tx.message.keys[j])@ != keypair.subrange(32, 64),
    ensures
        blockhash matches Err(message) ==> r == SdkResult::<Transaction>::Err(
            SdkError::Rpc(message),
        ),
        blockhash matches Ok(hash) ==> (r matches Ok(signed) && {
            let sent = transaction_data(signed);
            let message = MessageData { blockhash: hash@, ..tx.message };
            &&& sent.message == message
            &&& sent.signatures.len() == tx.signatures.len()
            &&& sent.signatures[p] == message_signature(message, keypair)
            &&& forall|i: int|
                0 <= i < sent.signatures.len() ==> #[trigger] sent.signatures[i] != blank(64) && (i
                    == p || sent.signatures[i] == tx.signatures[i])
        }),
{
    if let Ok(hash) = blockhash {
        signing_touches_only_the_keys_own_place(
            tx,
            public_half(keypair),
            message_signature(over(tx.message, hash@), keypair),
            hash@,
            p,
        );
    }
}

/// The checked form gives the result of signing exactly where signing can be done, and always
/// reports a network that gave no blockhash.
pub proof fn checked_signing_is_signing_where_it_can_be(
    tx: TransactionData,
    keypair: Seq<u8>,
    blockhash: Result<[u8; 32], String>,
    r: Option<SdkResult<Transaction>>,
)
    requires
        is_checked_signing_result(tx, keypair, blockhash, r),
    ensures
        r matches Some(result) ==> is_signing_result(tx, keypair, blockhash, result),
        blockhash is Err ==> r is Some,
        blockhash matches Ok(hash) ==> (r is Some <==> signable(shape(tx)) && signing(
            tx,
            keypair.subrange(32, 64),
            message_signature(MessageData { blockhash: hash@, ..tx.message }, keypair),
            hash@,
        ) is Some),
{
}

impl DriftClientBackend {
    /// No account is cached twice.
    pub closed spec fn well_formed(&self) -> bool {
        distinct(self.account_cache@)
    }

    /// The settings of account subscriptions.
    pub fn rpc_config() -> (r: AccountConfig)
        ensures
            r == (AccountConfig {
                encoding: Some(AccountEncoding::Base64Zstd),
                data_slice: None,
                commitment: Some(Commitment::Confirmed),
                min_context_slot: None,
            }),
    {
        AccountConfig {
            encoding: Some(AccountEncoding::Base64Zstd),
            data_slice: None,
            commitment: Some(Commitment::Confirmed),
            min_context_slot: None,
        }
    }

    /// Initialize a new `DriftClientBackend`
    pub fn new(endpoint: &str) -> (r: DriftClientBackend)
        requires
            ws_address(endpoint@) is Some,
        ensures
            r.well_formed(),
            r@ == (BackendData {
                rpc_url: endpoint@,
                ws_url: ws_address(endpoint@)->0,
                cache: Map::empty(),
                next_feed: 0,
            }),
    {
        let ws_url: String = checked_ws_url(endpoint).unwrap();
        let r = DriftClientBackend {
            rpc_url: endpoint.to_owned(),
            ws_url,
            account_cache: Vec::new(),
            next_feed: 0,
        };
        assert(r@.cache =~= Map::empty());
        r
    }

    /// The address to send requests to.
    pub fn rpc_url(&self) -> (r: &str)
        ensures
            r@ == self@.rpc_url,
    {
        self.rpc_url.as_str()
    }

    /// The address to open streams at.
    pub fn ws_url(&self) -> (r: &str)
        ensures
            r@ == self@.ws_url,
    {
        self.ws_url.as_str()
    }

    /// The place of an account in the cache.
    fn find(&self, account: &Pubkey) -> (r: Option<usize>)
        requires
            self.well_formed(),
        ensures
            match r {
                Some(i) => {
                    &&& i < self.account_cache@.len()
                    &&& self.account_cache@[i as int].account == *account
                    &&& self@.follows(*account)
                    &&& self@.cache[*account] == (CacheData {
                        user: self.account_cache@[i as int].user@,
                        feed: self.account_cache@[i as int].feed,
                    })
                },
                None => !self@.follows(*account),
            },
    {
        let mut i: usize = 0;
        while i < self.account_cache.len()
            invariant
                0 <= i <= self.account_cache@.len(),
                self.well_formed(),
                forall|k: int|
                    0 <= k < i ==> (#[trigger] self.account_cache@[k]).account != *account,
            decreases self.account_cache@.len() - i,
        {
            if self.account_cache[i].account.same(account) {
                proof {
                    lemma_cache_entry(self.account_cache@, i as int);
                }
                return Some(i);
            }
            i += 1;
        }
        None
    }

    /// Whether an account is followed. Of one that is not, the data has to be fetched for every
    /// query.
    pub fn is_cached(&self, account: &Pubkey) -> (r: bool)
        requires
            self.well_formed(),
        ensures
            r == self@.follows(*account),
    {
        match self.find(account) {
            Some(_) => true,
            None => false,
        }
    }

    /// Puts the data of an account into the cache, in place of what was there.
    fn store(&mut self, account: &Pubkey, user: User, feed: u64)
        requires
            old(self).well_formed(),
        ensures
            final(self).well_formed(),
            final(self)@ == old(self)@.with(*account, user@, feed),
    {
        let entry = CachedAccount { account: *account, user, feed };
        match self.find(account) {
            Some(i) => {
                self.account_cache.set(i, entry);
                proof {
                    let before = old(self).account_cache@;
                    let now = self.account_cache@;
                    assert(now =~= before.update(i as int, entry));
                    assert(distinct(now)) by {
                        assert forall|a: int, b: int| 0 <= a < b < now.len() implies (
                        #[trigger] now[a]).account != (#[trigger] now[b]).account by {
                            assert(before[a].account != before[b].account);
                        }
                    }
                    assert forall|k: int| 0 <= k < now.len() implies (#[trigger] now[k]).account
                        == before[k].account by {}
                    lemma_store(before, now, i as int, entry);
                }
            },
            None => {
                self.account_cache.push(entry);
                proof {
                    let before = old(self).account_cache@;
                    let now = self.account_cache@;
                    assert(now =~= before.push(entry));
                    assert(!has_entry(before, *account));
                    assert(distinct(now)) by {
                        assert forall|a: int, b: int| 0 <= a < b < now.len() implies (
                        #[trigger] now[a]).account != (#[trigger] now[b]).account by {
                            assert(now[a] == before[a]);
                            if b < before.len() {
                                assert(now[b] == before[b]);
                            }
                        }
                    }
                    lemma_store(before, now, before.len() as int, entry);
                }
            },
        }
    }

    /// Takes an account out of the cache.
    fn forget(&mut self, account: &Pubkey, i: usize)
        requires
            old(self).well_formed(),
            i < old(self).account_cache@.len(),
            old(self).account_cache@[i as int].account == *account,
        ensures
            final(self).well_formed(),
            final(self)@ == old(self)@.without(*account),
    {
        self.account_cache.remove(i);
        proof {
            let before = old(self).account_cache@;
            let now = self.account_cache@;
            assert(now =~= before.remove(i as int));
            lemma_forget(before, i as int);
        }
    }

    /// Fetch drift account data (PDA) for `account`
    ///
    /// `reply` - what the network answered; `None` where the account is followed and it was not
    /// asked
    pub fn get_account(&self, account: &Pubkey, reply: Option<FetchReply>) -> (r: SdkResult<User>)
        requires
            self.well_formed(),
            reply is None ==> self@.follows(*account),
        ensures
            is_answer(
                r,
                self@.account_data(*account, reply),
                |data: UserData, user: User| user@ == data,
            ),
            reply matches Some(FetchReply::Account(user)) ==> r == SdkResult::Ok(user),
            reply matches Some(FetchReply::Failed(message)) ==> r == SdkResult::<User>::Err(
                SdkError::Rpc(message),
            ),
            reply matches Some(FetchReply::Undecodable) ==> r == SdkResult::<User>::Err(
                SdkError::InvalidAccount,
            ),
    {
        match reply {
            None => {
                let i: usize = self.find(account).unwrap();
                Ok(self.account_cache[i].user.duplicate())
            },
            Some(FetchReply::Failed(message)) => Err(SdkError::Rpc(message)),
            Some(FetchReply::Undecodable) => Err(SdkError::InvalidAccount),
            Some(FetchReply::Account(user)) => Ok(user),
        }
    }

    /// Setup a subscription for account/sub-account updates
    ///
    /// Provides event-driven updates and caching of the account data, reducing RPC calls for
    /// queries related to this account. The data is cached before the stream is opened, and leaves
    /// the cache where that fails.
    pub fn subscribe_account(&mut self, account: &Pubkey, event: SubscribeEvent) -> (r:
        SubscribeAction)
        requires
            old(self).well_formed(),
        ensures
            final(self).well_formed(),
            final(self)@ == old(self)@.after(*account, event@),
            r == old(self)@.action(*account, event@),
    {
        match event {
            SubscribeEvent::Begin => {
                if self.is_cached(account) {
                    SubscribeAction::Finish(Ok(()))
                } else {
                    SubscribeAction::Fetch
                }
            },
            SubscribeEvent::Fetched(Ok(user)) => {
                let feed: u64 = self.next_feed;
                self.store(account, user, feed);
                self.next_feed = if feed == u64::MAX {
                    0
                } else {
                    feed + 1
                };
                SubscribeAction::OpenStream { feed }
            },
            SubscribeEvent::Fetched(Err(e)) => SubscribeAction::Finish(Err(e)),
            SubscribeEvent::Opened { feed, result: Ok(_) } => SubscribeAction::Listen { feed },
            SubscribeEvent::Opened { feed, result: Err(message) } => {
                match self.find(account) {
                    Some(i) => {
                        if self.account_cache[i].feed == feed {
                            self.forget(account, i);
                        }
                    },
                    None => {},
                }
                SubscribeAction::Finish(Err(SdkError::Ws(message)))
            },
            SubscribeEvent::Updated { feed, user } => {
                match self.find(account) {
                    Some(i) => {
                        if self.account_cache[i].feed == feed {
                            self.store(account, user, feed);
                            SubscribeAction::Listen { feed }
                        } else {
                            SubscribeAction::Close
                        }
                    },
                    None => SubscribeAction::Close,
                }
            },
        }
    }

    /// Sign a tx for sending to the network
    ///
    /// `blockhash` - a recent blockhash, or why the network gave none
    ///
    /// Returns the transaction to send
    pub fn sign_and_send(
        &self,
        wallet: &Wallet,
        tx: Transaction,
        blockhash: Result<[u8; 32], String>,
    ) -> (r: SdkResult<Transaction>)
        requires
            blockhash matches Ok(hash) ==> signs_with(
                transaction_data(tx),
                wallet@.keypair,
                hash@,
            ),
        ensures
            is_signing_result(transaction_data(tx), wallet@.keypair, blockhash, r),
    {
        match blockhash {
            Ok(hash) => Ok(try_sign(&tx, wallet.authority_pair(), &hash).unwrap()),
            Err(message) => Err(SdkError::Rpc(message)),
        }
    }

    /// `sign_and_send` where the transaction can be signed and the wallet's signature is all that
    /// it needs, and `None` elsewhere. A wallet whose signature the transaction does not require
    /// gets `None`.
    pub fn checked_sign_and_send(
        &self,
        wallet: &Wallet,
        tx: Transaction,
        blockhash: Result<[u8; 32], String>,
    ) -> (r: Option<SdkResult<Transaction>>)
        ensures
            is_checked_signing_result(transaction_data(tx), wallet@.keypair, blockhash, r),
    {
        match blockhash {
            Ok(hash) => {
                let shape: TransactionShape = shape_of(&tx);
                if shape.is_signable() {
                    match try_sign(&tx, wallet.authority_pair(), &hash) {
                        Some(_) => Some(self.sign_and_send(wallet, tx, Ok(hash))),
                        None => None,
                    }
                } else {
                    None
                }
            },
            Err(message) => Some(self.sign_and_send(wallet, tx, Err(message))),
        }
    }

    /// The result of sending a transaction: its signature, or the error.
    ///
    /// `reply` - the signature that the network accepted, or why it refused
    pub fn sent(reply: Result<[u8; 64], String>) -> (r: SdkResult<[u8; 64]>)
        ensures
            match (reply, r) {
                (Ok(signature), Ok(s)) => s == signature,
                (Err(message), Err(e)) => e == SdkError::Rpc(message),
                _ => false,
            },
    {
        match reply {
            Ok(signature) => Ok(signature),
            Err(message) => Err(SdkError::Rpc(message)),
        }
    }
}

/// Replacing or appending one entry changes what the list holds for its account alone.
proof fn lemma_store(
    before: Seq<CachedAccount>,
    now: Seq<CachedAccount>,
    i: int,
    entry: CachedAccount,
)
    requires
        distinct(before),
        distinct(now),
        0 <= i < now.len(),
        now[i] == entry,
        before.len() <= now.len() <= before.len() + 1,
        now.len() == before.len() + 1 ==> i == before.len() && !has_entry(before, entry.account),
        i < before.len() ==> before[i].account == entry.account,
        forall|k: int| 0 <= k < before.len() && k != i ==> now[k] == before[k],
    ensures
        cache_map(now) == cache_map(before).insert(
            entry.account,
            CacheData { user: entry.user@, feed: entry.feed },
        ),
{
    let map = cache_map(now);
    let want = cache_map(before).insert(
        entry.account,
        CacheData { user: entry.user@, feed: entry.feed },
    );
    lemma_cache_entry(now, i);
    assert forall|account: Pubkey| #[trigger]
        map.dom().contains(account) == want.dom().contains(account) by {
        if has_entry(before, account) && account != entry.account {
            let k = choose|k: int|
                0 <= k < before.len() && (#[trigger] before[k]).account == account;
            assert(now[k] == before[k]);
        }
        if has_entry(now, account) && account != entry.account {
            let k = choose|k: int| 0 <= k < now.len() && (#[trigger] now[k]).account == account;
            assert(now[k] == before[k]);
        }
    }
    assert forall|account: Pubkey| #[trigger] map.dom().contains(account) implies map[account]
        == want[account] by {
        if account != entry.account {
            let k = choose|k: int| 0 <= k < now.len() && (#[trigger] now[k]).account == account;
            assert(now[k] == before[k]);
            lemma_cache_entry(now, k);
            lemma_cache_entry(before, k);
        }
    }
    assert(map =~= want);
}

/// Removing one entry leaves what the list holds for all other accounts.
proof fn lemma_forget(before: Seq<CachedAccount>, i: int)
    requires
        distinct(before),
        0 <= i < before.len(),
    ensures
        distinct(before.remove(i)),
        cache_map(before.remove(i)) == cache_map(before).remove(before[i].account),
{
    let now = before.remove(i);
    let gone = before[i].account;
    let map = cache_map(now);
    let want = cache_map(before).remove(gone);
    assert forall|k: int| 0 <= k < now.len() implies #[trigger] now[k] == before[if k < i {
        k
    } else {
        k + 1
    }] by {}
    assert forall|a: int, b: int| 0 <= a < b < now.len() implies (#[trigger] now[a]).account != (
    #[trigger] now[b]).account by {
        let oa = if a < i { a } else { a + 1 };
        let ob = if b < i { b } else { b + 1 };
        assert(before[oa].account != before[ob].account);
    }
    assert forall|account: Pubkey| #[trigger]
        map.dom().contains(account) == want.dom().contains(account) by {
        if has_entry(now, account) {
            let k = choose|k: int| 0 <= k < now.len() && (#[trigger] now[k]).account == account;
            let o = if k < i { k } else { k + 1 };
            assert(before[o].account == account);
            assert(account != gone);
        }
        if has_entry(before, account) && account != gone {
            let o = choose|o: int|
                0 <= o < before.len() && (#[trigger] before[o]).account == account;
            let k = if o < i { o } else { o - 1 };
            assert(now[k].account == account);
        }
    }
    assert forall|account: Pubkey| #[trigger] map.dom().contains(account) implies map[account]
        == want[account] by {
        let k = choose|k: int| 0 <= k < now.len() && (#[trigger] now[k]).account == account;
        let o = if k < i { k } else { k + 1 };
        assert(now[k] == before[o]);
        lemma_cache_entry(now, k);
        lemma_cache_entry(before, o);
    }
    assert(map =~= want);
}

/// Drift Client API
pub struct DriftClient {
    backend: DriftClientBackend,
}

impl View for DriftClient {
    type V = BackendData;

    closed spec fn view(&self) -> BackendData {
        self.backend@
    }
}

impl DriftClient {
    /// No account is cached twice.
    pub closed spec fn well_formed(&self) -> bool {
        self.backend.well_formed()
    }

    /// A client for an endpoint, which follows no account.
    pub fn new(endpoint: &str) -> (r: DriftClient)
        requires
            ws_address(endpoint@) is Some,
        ensures
            r.well_formed(),
            r@ == (BackendData {
                rpc_url: endpoint@,
                ws_url: ws_address(endpoint@)->0,
                cache: Map::empty(),
                next_feed: 0,
            }),
    {
        DriftClient { backend: DriftClientBackend::new(endpoint) }
    }

    /// The client's backend.
    pub fn backend(&self) -> (r: &DriftClientBackend)
        ensures
            r@ == self@,
            self.well_formed() ==> r.well_formed(),
    {
        &self.backend
    }

    /// Transparently subscribe to account updates for a given account/sub-account, enabling more
    /// efficient, cached queries.
    ///
    /// `account` the drift user PDA
    ///
    /// This allows subsequent queries to benefit, useful for long-lived workloads expecting to
    /// query the same account frequently. In contrast, the default behaviour is to _always_ fetch
    /// the account data via network request which maybe better for ad-hoc workloads.
    pub fn subscribe_account(&mut self, account: &Pubkey, event: SubscribeEvent) -> (r:
        SubscribeAction)
        requires
            old(self).well_formed(),
        ensures
            final(self).well_formed(),
            final(self)@ == old(self)@.after(*account, event@),
            r == old(self)@.action(*account, event@),
    {
        self.backend.subscribe_account(account, event)
    }

    /// Get an account's open order by id
    ///
    /// `account` the drift user PDA
    pub fn get_order_by_id(
        &self,
        account: &Pubkey,
        reply: Option<FetchReply>,
        order_id: u32,
    ) -> (r: SdkResult<Option<Order>>)
        requires
            self.well_formed(),
            reply is None ==> self@.follows(*account),
        ensures
            is_answer(
                r,
                self@.account_data(*account, reply),
                |data: UserData, order: Option<Order>|
                    is_first(data.orders, has_order_id(order_id), order),
            ),
    {
        match self.backend.get_account(account, reply) {
            Ok(user) => Ok(user.order_by_id(order_id)),
            Err(e) => Err(e),
        }
    }

    /// Get an account's open order by user assigned id
    ///
    /// `account` the drift user PDA
    pub fn get_order_by_user_id(
        &self,
        account: &Pubkey,
        reply: Option<FetchReply>,
        user_order_id: u8,
    ) -> (r: SdkResult<Option<Order>>)
        requires
            self.well_formed(),
            reply is None ==> self@.follows(*account),
        ensures
            is_answer(
                r,
                self@.account_data(*account, reply),
                |data: UserData, order: Option<Order>|
                    is_first(data.orders, has_user_order_id(user_order_id), order),
            ),
    {
        match self.backend.get_account(account, reply) {
            Ok(user) => Ok(user.order_by_user_id(user_order_id)),
            Err(e) => Err(e),
        }
    }

    /// Get all the account's open orders
    ///
    /// `account` the drift user PDA
    pub fn all_orders(&self, account: &Pubkey, reply: Option<FetchReply>) -> (r: SdkResult<
        Vec<Order>,
    >)
        requires
            self.well_formed(),
            reply is None ==> self@.follows(*account),
        ensures
            is_answer(
                r,
                self@.account_data(*account, reply),
                |data: UserData, orders: Vec<Order>| orders@ == open_orders(data.orders),
            ),
            reply matches Some(FetchReply::Account(user)) ==> (r matches Ok(orders) && {
                &&& forall|i: int|
                    0 <= i < user.orders@.len() && (#[trigger] user.orders@[i]).status
                        == OrderStatus::Open ==> orders@.contains(user.orders@[i])
                &&& forall|k: int|
                    0 <= k < orders@.len() ==> user.orders@.contains(#[trigger] orders@[k])
                        && orders@[k].status == OrderStatus::Open
            }),
    {
        match self.backend.get_account(account, reply) {
            Ok(user) => Ok(user.open_orders()),
            Err(e) => Err(e),
        }
    }

    /// Get all the account's active positions
    ///
    /// `account` the drift user PDA
    pub fn all_positions(&self, account: &Pubkey, reply: Option<FetchReply>) -> (r: SdkResult<
        (Vec<SpotPosition>, Vec<PerpPosition>),
    >)
        requires
            self.well_formed(),
            reply is None ==> self@.follows(*account),
        ensures
            is_answer(
                r,
                self@.account_data(*account, reply),
                |data: UserData, positions: (Vec<SpotPosition>, Vec<PerpPosition>)|
                    {
                        &&& positions.0@ == active_spot(data.spot_positions)
                        &&& positions.1@ == active_perp(data.perp_positions)
                    },
            ),
            reply matches Some(FetchReply::Account(user)) ==> (r matches Ok(positions) && {
                &&& forall|i: int|
                    0 <= i < user.spot_positions@.len() && !(
                    #[trigger] user.spot_positions@[i]).available ==> positions.0@.contains(
                        user.spot_positions@[i],
                    )
                &&& forall|i: int|
                    0 <= i < user.perp_positions@.len() && (#[trigger] user.perp_positions@[i]).open
                        ==> positions.1@.contains(user.perp_positions@[i])
                &&& forall|k: int|
                    0 <= k < positions.0@.len() ==> user.spot_positions@.contains(
                        #[trigger] positions.0@[k],
                    ) && !positions.0@[k].available
                &&& forall|k: int|
                    0 <= k < positions.1@.len() ==> user.perp_positions@.contains(
                        #[trigger] positions.1@[k],
                    ) && positions.1@[k].open
            }),
    {
        match self.backend.get_account(account, reply) {
            Ok(user) => Ok((user.active_spot_positions(), user.active_perp_positions())),
            Err(e) => Err(e),
        }
    }

    /// Get a perp position by market
    ///
    /// `account` the drift user PDA
    ///
    /// Returns the position if it exists
    pub fn perp_position(
        &self,
        account: &Pubkey,
        reply: Option<FetchReply>,
        market_index: u16,
    ) -> (r: SdkResult<Option<PerpPosition>>)
        requires
            self.well_formed(),
            reply is None ==> self@.follows(*account),
        ensures
            is_answer(
                r,
                self@.account_data(*account, reply),
                |data: UserData, position: Option<PerpPosition>|
                    is_first(data.perp_positions, perp_in_market(market_index), position),
            ),
    {
        match self.backend.get_account(account, reply) {
            Ok(user) => Ok(user.perp_position(market_index)),
            Err(e) => Err(e),
        }
    }

    /// Get a spot position by market
    ///
    /// `account` the drift user PDA
    ///
    /// Returns the position if it exists
    pub fn spot_position(
        &self,
        account: &Pubkey,
        reply: Option<FetchReply>,
        market_index: u16,
    ) -> (r: SdkResult<Option<SpotPosition>>)
        requires
            self.well_formed(),
            reply is None ==> self@.follows(*account),
        ensures
            is_answer(
                r,
                self@.account_data(*account, reply),
                |data: UserData, position: Option<SpotPosition>|
                    is_first(data.spot_positions, spot_in_market(market_index), position),
            ),
    {
        match self.backend.get_account(account, reply) {
            Ok(user) => Ok(user.spot_position(market_index)),
            Err(e) => Err(e),
        }
    }

    /// Get the user account data
    ///
    /// `account` the drift user PDA
    pub fn get_account_data(&self, account: &Pubkey, reply: Option<FetchReply>) -> (r: SdkResult<
        User,
    >)
        requires
            self.well_formed(),
            reply is None ==> self@.follows(*account),
        ensures
            is_answer(
                r,
                self@.account_data(*account, reply),
                |data: UserData, user: User| user@ == data,
            ),
            reply matches Some(FetchReply::Account(user)) ==> r == SdkResult::Ok(user),
            reply matches Some(FetchReply::Failed(message)) ==> r == SdkResult::<User>::Err(
                SdkError::Rpc(message),
            ),
            reply matches Some(FetchReply::Undecodable) ==> r == SdkResult::<User>::Err(
                SdkError::InvalidAccount,
            ),
    {
        self.backend.get_account(account, reply)
    }

    /// Sign a tx for sending to the network
    ///
    /// Returns the transaction to send
    pub fn sign_and_send(
        &self,
        wallet: &Wallet,
        tx: Transaction,
        blockhash: Result<[u8; 32], String>,
    ) -> (r: SdkResult<Transaction>)
        requires
            blockhash matches Ok(hash) ==> signs_with(
                transaction_data(tx),
                wallet@.keypair,
                hash@,
            ),
        ensures
            is_signing_result(transaction_data(tx), wallet@.keypair, blockhash, r),
    {
        self.backend.sign_and_send(wallet, tx, blockhash)
    }

    /// `sign_and_send` where the transaction can be signed and the wallet's signature is all that
    /// it needs, and `None` elsewhere.
    pub fn checked_sign_and_send(
        &self,
        wallet: &Wallet,
        tx: Transaction,
        blockhash: Result<[u8; 32], String>,
    ) -> (r: Option<SdkResult<Transaction>>)
        ensures
            is_checked_signing_result(transaction_data(tx), wallet@.keypair, blockhash, r),
    {
        self.backend.checked_sign_and_send(wallet, tx, blockhash)
    }
}

/// A query is asked of account data: of what the network sent, or, where it was not asked, of the
/// latest data of the followed account.
pub open spec fn is_asked_of(
    state: BackendData,
    account: Pubkey,
    reply: Option<FetchReply>,
    data: UserData,
) -> bool {
    match reply {
        Some(FetchReply::Account(user)) => {
            &&& data.orders == user.orders@
            &&& data.spot_positions == user.spot_positions@
            &&& data.perp_positions == user.perp_positions@
        },
        None => data == state.cache[account].user,
        _ => false,
    }
}

/// A query by id answers with the first order of the account that is open and has the id, and with
/// nothing only where there is none.
pub proof fn a_query_by_id_finds_the_open_order(
    client: DriftClient,
    account: Pubkey,
    reply: Option<FetchReply>,
    data: UserData,
    order_id: u32,
    r: SdkResult<Option<Order>>,
    i: int,
)
    requires
        call_ensures(DriftClient::get_order_by_id, (&client, &account, reply, order_id), r),
        is_asked_of(client@, account, reply, data),
    ensures
        r is Ok,
        0 <= i < data.orders.len() && data.orders[i].status == OrderStatus::Open
            && data.orders[i].order_id == order_id && (forall|j: int|
            0 <= j < i ==> !((#[trigger] data.orders[j]).status == OrderStatus::Open
                && data.orders[j].order_id == order_id)) ==> r->Ok_0 == Some(
            data.orders[i],
        ),
        r->Ok_0 is None <==> forall|j: int|
            0 <= j < data.orders.len()
                ==> !((#[trigger] data.orders[j]).status == OrderStatus::Open
                && data.orders[j].order_id == order_id),
{
    search_by_id_finds_the_first_open_order(data.orders, order_id, r->Ok_0, i);
}

/// A query by user assigned id answers with the first order of the account that is open and has the
/// id, and with nothing only where there is none.
pub proof fn a_query_by_user_id_finds_the_open_order(
    client: DriftClient,
    account: Pubkey,
    reply: Option<FetchReply>,
    data: UserData,
    user_order_id: u8,
    r: SdkResult<Option<Order>>,
    i: int,
)
    requires
        call_ensures(
            DriftClient::get_order_by_user_id,
            (&client, &account, reply, user_order_id),
            r,
        ),
        is_asked_of(client@, account, reply, data),
    ensures
        r is Ok,
        0 <= i < data.orders.len() && data.orders[i].status == OrderStatus::Open
            && data.orders[i].user_order_id == user_order_id && (forall|j: int|
            0 <= j < i ==> !((#[trigger] data.orders[j]).status == OrderStatus::Open
                && data.orders[j].user_order_id == user_order_id)) ==> r->Ok_0 == Some(
            data.orders[i],
        ),
        r->Ok_0 is None <==> forall|j: int|
            0 <= j < data.orders.len()
                ==> !((#[trigger] data.orders[j]).status == OrderStatus::Open
                && data.orders[j].user_order_id == user_order_id),
{
    search_by_user_id_finds_the_first_open_order(data.orders, user_order_id, r->Ok_0, i);
}

/// A query by market answers with the first spot record of the market that is not free, and with
/// nothing only where there is none.
pub proof fn a_query_by_market_finds_the_spot_position(
    client: DriftClient,
    account: Pubkey,
    reply: Option<FetchReply>,
    data: UserData,
    market_index: u16,
    r: SdkResult<Option<SpotPosition>>,
    i: int,
)
    requires
        call_ensures(DriftClient::spot_position, (&client, &account, reply, market_index), r),
        is_asked_of(client@, account, reply, data),
    ensures
        r is Ok,
        0 <= i < data.spot_positions.len() && !data.spot_positions[i].available
            && data.spot_positions[i].market_index == market_index && (forall|j: int|
            0 <= j < i ==> !(!(#[trigger] data.spot_positions[j]).available
                && data.spot_positions[j].market_index == market_index)) ==> r->Ok_0 == Some(
            data.spot_positions[i],
        ),
        r->Ok_0 is None <==> forall|j: int|
            0 <= j < data.spot_positions.len()
                ==> !(!(#[trigger] data.spot_positions[j]).available
                && data.spot_positions[j].market_index == market_index),
{
    search_by_market_finds_the_first_spot_position(data.spot_positions, market_index, r->Ok_0, i);
}

/// A query by market answers with the first perp record of the market that is an open position or is
/// not free, and with nothing only where there is none.
pub proof fn a_query_by_market_finds_the_perp_position(
    client: DriftClient,
    account: Pubkey,
    reply: Option<FetchReply>,
    data: UserData,
    market_index: u16,
    r: SdkResult<Option<PerpPosition>>,
    i: int,
)
    requires
        call_ensures(DriftClient::perp_position, (&client, &account, reply, market_index), r),
        is_asked_of(client@, account, reply, data),
    ensures
        r is Ok,
        0 <= i < data.perp_positions.len() && (data.perp_positions[i].open
            || !data.perp_positions[i].available)
            && data.perp_positions[i].market_index == market_index && (forall|j: int|
            0 <= j < i ==> !(((#[trigger] data.perp_positions[j]).open
                || !data.perp_positions[j].available)
                && data.perp_positions[j].market_index == market_index)) ==> r->Ok_0 == Some(
            data.perp_positions[i],
        ),
        r->Ok_0 is None <==> forall|j: int|
            0 <= j < data.perp_positions.len()
                ==> !(((#[trigger] data.perp_positions[j]).open
                || !data.perp_positions[j].available)
                && data.perp_positions[j].market_index == market_index),
{
    search_by_market_finds_the_first_perp_position(data.perp_positions, market_index, r->Ok_0, i);
}

/// A query for all orders answers with exactly the open orders of the account, in its order.
pub proof fn all_open_orders_are_answered(
    client: DriftClient,
    account: Pubkey,
    reply: Option<FetchReply>,
    data: UserData,
    r: SdkResult<Vec<Order>>,
)
    requires
        call_ensures(DriftClient::all_orders, (&client, &account, reply), r),
        is_asked_of(client@, account, reply, data),
    ensures
        r is Ok,
        r->Ok_0@ == data.orders.filter(|o: Order| o.status == OrderStatus::Open),
        forall|order: Order| #[trigger]
            r->Ok_0@.contains(order) <==> data.orders.contains(order) && order.status
                == OrderStatus::Open,
{
    assert forall|order: Order| #[trigger] r->Ok_0@.contains(order) <==> data.orders.contains(order)
        && order.status == OrderStatus::Open by {
        listed_orders_are_the_open_ones(data.orders, order);
    }
}

/// A query for all positions answers with exactly the spot records that are not free and the open
/// perp positions of the account, in its order, whatever their markets.
pub proof fn all_active_positions_are_answered(
    client: DriftClient,
    account: Pubkey,
    reply: Option<FetchReply>,
    data: UserData,
    r: SdkResult<(Vec<SpotPosition>, Vec<PerpPosition>)>,
)
    requires
        call_ensures(DriftClient::all_positions, (&client, &account, reply), r),
        is_asked_of(client@, account, reply, data),
    ensures
        r is Ok,
        r->Ok_0.0@ == data.spot_positions.filter(|p: SpotPosition| !p.available),
        r->Ok_0.1@ == data.perp_positions.filter(|p: PerpPosition| p.open),
        forall|p: SpotPosition| #[trigger]
            r->Ok_0.0@.contains(p) <==> data.spot_positions.contains(p) && !p.available,
        forall|p: PerpPosition| #[trigger]
            r->Ok_0.1@.contains(p) <==> data.perp_positions.contains(p) && p.open,
{
    let spot = SpotPosition { slot: 0, market_index: 0, available: false };
    let perp = PerpPosition { slot: 0, market_index: 0, available: false, open: false };
    assert forall|p: SpotPosition| #[trigger] r->Ok_0.0@.contains(p)
        <==> data.spot_positions.contains(p) && !p.available by {
        listed_positions_are_the_active_ones(data, p, perp);
    }
    assert forall|p: PerpPosition| #[trigger] r->Ok_0.1@.contains(p)
        <==> data.perp_positions.contains(p) && p.open by {
        listed_positions_are_the_active_ones(data, spot, p);
    }
}

/// A query for the account data answers with all of its records.
pub proof fn the_whole_account_is_answered(
    client: DriftClient,
    account: Pubkey,
    reply: Option<FetchReply>,
    data: UserData,
    r: SdkResult<User>,
)
    requires
        call_ensures(DriftClient::get_account_data, (&client, &account, reply), r),
        is_asked_of(client@, account, reply, data),
    ensures
        r is Ok,
        r->Ok_0.orders@ == data.orders,
        r->Ok_0.spot_positions@ == data.spot_positions,
        r->Ok_0.perp_positions@ == data.perp_positions,
{
}

/// Every query fails with the words of a network that failed, and with an invalid account where the
/// network sent what is none.
pub proof fn every_query_passes_the_networks_failures_on(
    client: DriftClient,
    account: Pubkey,
    reply: Option<FetchReply>,
    error: SdkError,
    ids: (u32, u8, u16, u16),
    by_id: SdkResult<Option<Order>>,
    by_user_id: SdkResult<Option<Order>>,
    perp: SdkResult<Option<PerpPosition>>,
    spot: SdkResult<Option<SpotPosition>>,
    orders: SdkResult<Vec<Order>>,
    positions: SdkResult<(Vec<SpotPosition>, Vec<PerpPosition>)>,
    data: SdkResult<User>,
)
    requires
        call_ensures(DriftClient::get_order_by_id, (&client, &account, reply, ids.0), by_id),
        call_ensures(
            DriftClient::get_order_by_user_id,
            (&client, &account, reply, ids.1),
            by_user_id,
        ),
        call_ensures(DriftClient::perp_position, (&client, &account, reply, ids.2), perp),
        call_ensures(DriftClient::spot_position, (&client, &account, reply, ids.3), spot),
        call_ensures(DriftClient::all_orders, (&client, &account, reply), orders),
        call_ensures(DriftClient::all_positions, (&client, &account, reply), positions),
        call_ensures(DriftClient::get_account_data, (&client, &account, reply), data),
        match reply {
            Some(FetchReply::Failed(message)) => error == SdkError::Rpc(message),
            Some(FetchReply::Undecodable) => error == SdkError::InvalidAccount,
            _ => false,
        },
    ensures
        by_id matches Err(e) && e == error,
        by_user_id matches Err(e) && e == error,
        perp matches Err(e) && e == error,
        spot matches Err(e) && e == error,
        orders matches Err(e) && e == error,
        positions matches Err(e) && e == error,
        data matches Err(e) && e == error,
{
}

/// A new client follows nothing, sends its requests to the endpoint that it was given, and opens
/// its streams at the websocket address of the same host, as secure as the endpoint is.
pub proof fn new_clients_keep_to_their_endpoint(
    endpoint: &str,
    rest: Seq<char>,
    client: DriftClient,
    backend: DriftClientBackend,
    rpc_url: &str,
    ws_url: &str,
    account: Pubkey,
    cached: bool,
)
    requires
        call_ensures(DriftClient::new, (endpoint,), client),
        call_ensures(DriftClient::backend, (&client,), &backend),
        call_ensures(DriftClientBackend::rpc_url, (&backend,), rpc_url),
        call_ensures(DriftClientBackend::ws_url, (&backend,), ws_url),
        call_ensures(DriftClientBackend::is_cached, (&backend, &account), cached),
    ensures
        rpc_url@ == endpoint@,
        endpoint@ == "https://"@ + rest ==> ws_url@ == "wss://"@ + rest,
        endpoint@ == "http://"@ + rest ==> ws_url@ == "ws://"@ + rest,
        !cached,
{
    websocket_addresses_keep_host_and_security(rest, endpoint@);
}

/// What comes of sending is passed on: the signature that the network accepted, or its refusal in
/// its own words.
pub proof fn the_networks_word_on_sending_is_passed_on(
    reply: Result<[u8; 64], String>,
    r: SdkResult<[u8; 64]>,
)
    requires
        call_ensures(DriftClientBackend::sent, (reply,), r),
    ensures
        reply matches Ok(signature) ==> (r matches Ok(s) && s == signature),
        reply matches Err(message) ==> (r matches Err(e) && e == SdkError::Rpc(message)),
{
}

/// A client signs with the key pair of the given wallet, and as its backend does.
pub proof fn clients_sign_with_the_given_wallet(
    client: DriftClient,
    backend: DriftClientBackend,
    wallet: Wallet,
    tx: Transaction,
    blockhash: Result<[u8; 32], String>,
    by_client: (SdkResult<Transaction>, Option<SdkResult<Transaction>>),
    by_backend: (SdkResult<Transaction>, Option<SdkResult<Transaction>>),
)
    requires
        call_ensures(DriftClient::sign_and_send, (&client, &wallet, tx, blockhash), by_client.0),
        call_ensures(
            DriftClient::checked_sign_and_send,
            (&client, &wallet, tx, blockhash),
            by_client.1,
        ),
        call_ensures(
            DriftClientBackend::sign_and_send,
            (&backend, &wallet, tx, blockhash),
            by_backend.0,
        ),
        call_ensures(
            DriftClientBackend::checked_sign_and_send,
            (&backend, &wallet, tx, blockhash),
            by_backend.1,
        ),
    ensures
        is_signing_result(transaction_data(tx), wallet@.keypair, blockhash, by_client.0),
        is_signing_result(transaction_data(tx), wallet@.keypair, blockhash, by_backend.0),
        is_checked_signing_result(transaction_data(tx), wallet@.keypair, blockhash, by_client.1),
        is_checked_signing_result(transaction_data(tx), wallet@.keypair, blockhash, by_backend.1),
{
}

} // verus!
