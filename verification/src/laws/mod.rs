//! What holds of the provider as a whole, over all vaults and requests.
pub mod criteria;
pub mod fields;
pub mod filtering;
pub mod opening;
pub mod outcomes;
pub mod paths;
pub mod plain;
pub mod reading;
pub mod resolving;
pub mod rows;
pub mod sealing;
pub mod texts;
pub mod unlocking;
pub mod views;
