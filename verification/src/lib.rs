//! A marketplace core for non-fungible digital assets.
//!
//! Sellers list an asset at a fixed price, buyers purchase it, and the
//! asset's creator receives an automatic royalty cut on every sale.  A
//! second subsystem lets any party place a standing offer on a specific
//! asset, which the asset owner can accept or the offerer can cancel.
//!
//! The engine itself performs no I/O: collaborator lookups (asset custody,
//! royalty information, fungible-token balances) enter each operation as
//! plain values, and every side effect leaves it as an ordered list of
//! [`types::Instruction`] values that the host is responsible for carrying
//! out.  Identifiers for accounts, collections and tokens are canonical
//! numeric handles; the host owns the mapping between these handles and
//! whatever textual addresses its environment uses.

pub mod types;

pub mod error;

pub mod state;

pub mod listing_store;

pub mod registry;

pub mod order_state;

pub mod order_store;

pub mod royalty;

pub mod execute;

pub mod query;

pub mod msg;

pub mod contract;

pub mod laws;
