//! What the market does with a message: set up, trade, answer.

pub mod execute;
pub mod instantiate;
pub mod query;
