pub mod admin;
pub mod balance;
pub mod contract;
pub mod control;
pub mod error;
pub mod events;
pub mod ledger;
pub mod metadata;
pub mod storage_types;
pub mod validation;
