//! Plain values that pass between callers, the transaction builder and the client.
use vstd::prelude::*;

verus! {

/// The deployment of the program that a wallet talks to.
#[derive(Clone, Copy, Debug, PartialEq, Eq, Structural)]
pub enum Context {
    Dev,
    Main,
}

/// Why an operation of the SDK failed.
#[derive(Debug, PartialEq, Eq)]
pub enum SdkError {
    /// The network answered with what is not a user account.
    InvalidAccount,
    /// The seed is too short for a signing key.
    InvalidSeed,
    /// A request to the network failed, with the client's words.
    Rpc(String),
    /// A subscription failed, with the client's words.
    Ws(String),
}

/// The result of an operation of the SDK.
pub type SdkResult<T> = Result<T, SdkError>;

/// The two kinds of market.
#[derive(Clone, Copy, Debug, PartialEq, Eq, Structural)]
pub enum MarketType {
    Spot,
    Perp,
}

/// Long or short.
#[derive(Clone, Copy, Debug, PartialEq, Eq, Structural)]
pub enum PositionDirection {
    Long,
    Short,
}

/// A market: its index among the markets of its kind, and the kind.
#[derive(Clone, Copy, Debug, PartialEq, Eq, Structural)]
pub struct MarketId {
    pub index: u16,
    pub kind: MarketType,
}

impl MarketId {
    /// The market of kind `kind` with index `index`.
    pub fn new(index: u16, kind: MarketType) -> (r: MarketId)
        ensures
            r == (MarketId { index, kind }),
    {
        MarketId { index, kind }
    }
}

} // verus!
