//! A peer-to-peer escrow marketplace: a registry of traders and a trade
//! lifecycle in which a seller funds an escrow account that is later paid out
//! to the buyer on confirmed receipt, or back to the seller after a time-lock.

pub mod escrow;
pub mod laws;
pub mod pallet;
pub mod types;
