//! Proposer-reward analytics for execution-layer blocks.
//!
//! Given a block's transactions and receipts, the library computes the
//! proposer's priority-fee income (total tips minus the burned base fee),
//! classifies and aggregates delivered-payload reports from block-auction
//! relays, and assembles one reward record per block. The surrounding
//! program fetches the raw data and drives the block range; everything the
//! record's fields claim is proved here.

pub mod block_reward;
pub mod relay;
pub mod reward;
pub mod schedule;
pub mod text;

pub use reward::sum_and_saturate;
