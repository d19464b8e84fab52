//! A bonding-curve market for access keys tied to one account, and a book of
//! questions that are asked for the price of a key.
//!
//! Keys are bought and sold at a price that rises with the number of keys in
//! circulation; the issuing account collects a fee on every trade. The rules
//! are stated over plain values and proved: prices are exact integers, a
//! trade that is turned down leaves no trace, and the supply is at all times
//! the sum of what the holders hold.
//!
//! - `pricing`: the curve, the fee, and their laws.
//! - `address`: the order in which holders are listed.
//! - `payment`: the funds that come with a message.
//! - `state`: the ledger of a market.
//! - `paging`: pages of the holder listing.
//! - `handlers`: setting a market up, trading, answering queries.
//! - `msg`, `error`: what goes in and what comes out.
//! - `qa`: the book of questions.

pub mod address;
pub mod error;
pub mod handlers;
pub mod msg;
pub mod paging;
pub mod payment;
pub mod pricing;
pub mod qa;
pub mod state;
pub mod utils;
