//! Questions to the issuer of a market, asked for the price of one key and
//! answered by the issuer alone.

pub mod error;
pub mod handlers;
pub mod msg;
pub mod state;
pub mod utils;
