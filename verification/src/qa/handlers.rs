//! What the book of questions does with a message: open, ask, answer, tell.

pub mod execute;
pub mod instantiate;
pub mod query;
