//! Verified teaching snippets: a card deck built from a fixed
//! suit-and-value cross product, a bank ledger with a non-negative
//! balance invariant, and a media catalog of three record shapes.

pub mod bank;
pub mod deck;
pub mod media;
pub mod text;
