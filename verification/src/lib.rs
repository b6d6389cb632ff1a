//! A client SDK for the Drift exchange program: wallets, queries on user accounts, and transactions
//! that place, modify and cancel orders.
pub mod account_laws;
pub mod accounts;
pub mod builder;
pub mod client;
pub mod constants;
pub mod endpoint;
pub mod orders;
pub mod pubkey;
pub mod remaining;
pub mod solana;
pub mod transaction;
pub mod types;
pub mod user;
pub mod wallet;
