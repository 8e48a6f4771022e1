//! A BRC-20 indexer core: the decimal amount decoder, the inscription payload
//! parser, the ledger types (balances, tickers, invalid-transaction registry)
//! and the state machine that applies deploy, mint and transfer events.
//!
//! Every function states its behaviour as a contract that Verus proves.

pub mod amount;
pub mod brc20_index;
pub mod brc20_ticker;
pub mod deploy;
pub mod laws;
pub mod mint;
pub mod model;
pub mod payload;
pub mod seqs;
pub mod transfer;
pub mod tx;
pub mod user_balance;
