//! A subscription-gated access ledger: a treasury singleton, per-subscriber
//! access grants and authority-issued signal records, each stored at an
//! address derived from a namespace tag and key material.

pub mod address;
pub mod records;
pub mod ledger;
