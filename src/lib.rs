//! Credential checking, two-factor challenges and session tokens for an
//! authentication service, with the rules stated and proved as contracts.
pub mod assoc;
pub mod auth;
pub mod domain;
pub mod stores;
pub mod token;
