//! Accounting engine for limited-supply token series: a catalogue of series,
//! supply-capped minting paid from a prepaid balance or an incoming token
//! transfer, and royalty payouts in basis points.

pub mod contract;
pub mod error;
pub mod fees;
pub mod laws;
pub mod metadata;
pub mod model;
pub mod payout;
pub mod resolver;
pub mod series;
pub mod table;
pub mod text;
pub mod transfer;
pub mod view;
