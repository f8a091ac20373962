//! Billing engine for a shared group order: exact-cent money arithmetic,
//! per-participant meal ledgers, and an order-wide reconciliation of what
//! was paid against what is owed.

pub mod errors;
pub mod id;
pub mod id_provider;
pub mod meal;
pub mod meals;
pub mod money;
pub mod order;
pub mod special;
pub mod user;
