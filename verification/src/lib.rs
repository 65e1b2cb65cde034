//! State-transition core of a permissioned security-token ledger.
//!
//! The crate keeps, for every ticker, who owns it, how much of it every
//! identity holds, what may be spent on a holder's behalf, and what every
//! identity held when a checkpoint was taken. Every operation is a total
//! function of the state and its arguments with a contract over the
//! mathematical model of that state.
//!
//! - `ticker`: ticker symbols.
//! - `primitives`: identities, keys, signatories, authorizations and links.
//! - `table`: the keyed tables that the state is made of.
//! - `identity`: the registry of identities, with the lists of
//!   authorizations and links of every signatory.
//! - `asset`: the token ledger, with its checkpoints, its custody and the
//!   hand-over of tickers and tokens; and what holds of it through every
//!   operation: conservation of supply, granularity, history, cover.
//! - `percentage_tm`: the cap on ownership.
//! - `statistics`: the count of investors.
//! - `codec`: the byte encodings taken from the codec crate.
//! - `error`: why an operation is turned down.

pub mod asset;
pub mod codec;
pub mod error;
pub mod identity;
pub mod percentage_tm;
pub mod primitives;
pub mod statistics;
pub mod table;
pub mod ticker;
