//! Invoice financing on a ledger: committed invoices, lender pools, repayment
//! routing and governance, as state machines over plain values.

pub mod arith;
pub mod governance;
pub mod governance_effects;
pub mod governance_laws;
pub mod ident;
pub mod invoice_registry;
pub mod multisig;
pub mod nft;
pub mod pedersen;
pub mod pool_effects;
pub mod pool_laws;
pub mod pool_manager;
pub mod prime;
pub mod registry_effects;
pub mod registry_laws;
pub mod repayment_waterfall;
pub mod table;
pub mod waterfall_effects;
pub mod waterfall_laws;
