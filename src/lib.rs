//! A ledger for a multi-agent arena: payment records, agent deaths,
//! aggregate statistics and escrowed bets, with every state transition
//! stated and proved.

pub mod identity;
pub mod address;
pub mod records;
pub mod ledger;
pub mod laws;
