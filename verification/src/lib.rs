//! Secrets from an Enpass vault.
//!
//! The library holds what the provider decides and computes: how a vault is
//! unlocked, how the rows of its database become fields and tags, how a
//! reference resolves to one field, and how the value of that field is read.
//! Files, the environment and the database are left to the caller, who hands
//! over what they gave.
pub mod batch;
pub mod crypto;
pub mod error;
pub mod filter;
pub mod hexcode;
pub mod item;
pub mod laws;
pub mod open;
pub mod order;
pub mod provider;
pub mod query;
pub mod resolve;
pub mod sequences;
pub mod text;
pub mod vault;

pub use crate::error::FnoxError;
pub use crate::filter::{FilterValue, SecretFilter, Tags};
pub use crate::item::EnpassItem;
pub use crate::provider::{env_dependencies, EnpassProvider};
