//! Settlement logic for verified commodity trade: an escrow that holds a
//! buyer's payment against one trade, a splitter that divides a released
//! payment between the parties, and a write-once registry of settled-trade
//! digests.
//!
//! Each contract is a value holding its storage as plain data. An operation
//! returns an [`common::Invocation`]: the signatures it demands, in the order it
//! demands them, and its result. What moves money is returned as
//! [`common::Transfer`]s for the caller to carry out against the token.


pub mod common;
pub mod table;
pub mod escrow;
pub mod splitter;
pub mod attestation;
