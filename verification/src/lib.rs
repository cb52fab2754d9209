//! Core logic of a multi-broker trading desk: broker identities, credential
//! records, the registry of linked brokers, account naming and selection,
//! order planning and request signing, each stated and proved with Verus.

pub mod text;
pub mod error;
pub mod broker_type;
pub mod idmap;
pub mod credentials;
pub mod manager;
pub mod crypto;
pub mod migration;
pub mod market;
pub mod accounts;
pub mod orders;
pub mod fennel;
pub mod plans;
pub mod session;
pub mod encoding;
pub mod signing;
pub mod robinhood_login;
pub mod desk;
pub mod login_codes;
pub mod instruments;
