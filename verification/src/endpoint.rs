//! Network addresses and request settings.
use vstd::prelude::*;
use vstd::string::*;

verus! {

/// The websocket address that belongs to an http(s) address: the same host and path, under the
/// websocket scheme that is as secure.
pub open spec fn ws_address(endpoint: Seq<char>) -> Option<Seq<char>> {
    if "https://"@.is_prefix_of(endpoint) {
        Some("wss://"@ + endpoint.skip("https://"@.len() as int))
    } else if "http://"@.is_prefix_of(endpoint) {
        Some("ws://"@ + endpoint.skip("http://"@.len() as int))
    } else {
        None
    }
}

/// Only the scheme of an address changes, and it stays as secure as it was: what follows
/// `https://` is reached under `wss://`, and what follows `http://` under `ws://`. Nothing else has
/// a websocket address.
pub proof fn websocket_addresses_keep_host_and_security(rest: Seq<char>, endpoint: Seq<char>)
    ensures
        ws_address("https://"@ + rest) == Some("wss://"@ + rest),
        ws_address("http://"@ + rest) == Some("ws://"@ + rest),
        ws_address(endpoint) is Some ==> exists|tail: Seq<char>|
            endpoint == #[trigger] ("https://"@ + tail) || endpoint == "http://"@ + tail,
{
    reveal_strlit("https://");
    reveal_strlit("http://");
    let secure = "https://"@ + rest;
    let plain = "http://"@ + rest;
    assert(secure.subrange(0, 8) =~= "https://"@);
    assert("https://"@.is_prefix_of(secure));
    assert(secure.skip(8) =~= rest);
    assert(plain.subrange(0, 7) =~= "http://"@);
    assert("http://"@.is_prefix_of(plain));
    assert(plain.skip(7) =~= rest);
    assert(!"https://"@.is_prefix_of(plain)) by {
        assert(plain[4] == ':');
        if "https://"@.is_prefix_of(plain) {
            assert("https://"@[4] == plain.subrange(0, 8)[4]);
        }
    }
    if "https://"@.is_prefix_of(endpoint) {
        assert(endpoint =~= "https://"@ + endpoint.skip(8));
    } else if "http://"@.is_prefix_of(endpoint) {
        let tail = endpoint.skip(7);
        assert(endpoint =~= "http://"@ + tail);
        assert(("https://"@ + tail).len() == 8 + tail.len());
    }
}

/// The rest of a text after a prefix, where it begins with it.
fn strip_prefix<'a>(text: &'a str, prefix: &str) -> (r: Option<&'a str>)
    ensures
        match r {
            Some(rest) => {
                &&& prefix@.is_prefix_of(text@)
                &&& rest@ == text@.skip(prefix@.len() as int)
            },
            None => !prefix@.is_prefix_of(text@),
        },
{
    let n: usize = prefix.unicode_len();
    let len: usize = text.unicode_len();
    if len < n {
        return None;
    }
    let mut i: usize = 0;
    while i < n
        invariant
            0 <= i <= n,
            n == prefix@.len(),
            n <= text@.len(),
            forall|k: int| 0 <= k < i ==> prefix@[k] == text@[k],
        decreases n - i,
    {
        if prefix.get_char(i) != text.get_char(i) {
            assert(prefix@[i as int] != text@.subrange(0, n as int)[i as int]);
            return None;
        }
        i += 1;
    }
    assert(prefix@ =~= text@.subrange(0, n as int));
    let rest: &'a str = text.substring_char(n, len);
    assert(rest@ =~= text@.skip(n as int));
    Some(rest)
}

/// The websocket address of an http(s) address, and `None` where the address is neither.
pub fn checked_ws_url(endpoint: &str) -> (r: Option<String>)
    ensures
        match r {
            Some(url) => ws_address(endpoint@) == Some(url@),
            None => ws_address(endpoint@) is None,
        },
{
    match strip_prefix(endpoint, "https://") {
        Some(uri) => {
            let mut url: String = "wss://".to_owned();
            url.append(uri);
            Some(url)
        },
        None => match strip_prefix(endpoint, "http://") {
            Some(uri) => {
                let mut url: String = "ws://".to_owned();
                url.append(uri);
                Some(url)
            },
            None => None,
        },
    }
}

/// How account data comes encoded.
#[derive(Clone, Copy, Debug, PartialEq, Eq, Structural)]
pub enum AccountEncoding {
    Base58,
    Base64,
    Base64Zstd,
    JsonParsed,
}

/// How settled the state has to be that a request reads.
#[derive(Clone, Copy, Debug, PartialEq, Eq, Structural)]
pub enum Commitment {
    Processed,
    Confirmed,
    Finalized,
}

/// The settings of an account subscription. `None` leaves a setting to the network.
#[derive(Clone, Copy, Debug, PartialEq, Eq)]
pub struct AccountConfig {
    pub encoding: Option<AccountEncoding>,
    /// Offset and length of the part of the data to send.
    pub data_slice: Option<(usize, usize)>,
    pub commitment: Option<Commitment>,
    pub min_context_slot: Option<u64>,
}

/// An address begins with `https://` or `http://` and has the websocket address of the same host,
/// as secure as it is, or it has none.
pub proof fn only_http_addresses_have_a_websocket_address(
    endpoint: &str,
    rest: Seq<char>,
    r: Option<String>,
)
    requires
        call_ensures(checked_ws_url, (endpoint,), r),
    ensures
        endpoint@ == "https://"@ + rest ==> (r matches Some(url) && url@ == "wss://"@ + rest),
        endpoint@ == "http://"@ + rest ==> (r matches Some(url) && url@ == "ws://"@ + rest),
        r is Some ==> exists|tail: Seq<char>|
            endpoint@ == #[trigger] ("https://"@ + tail) || endpoint@ == "http://"@ + tail,
{
    websocket_addresses_keep_host_and_security(rest, endpoint@);
}

} // verus!
