//! A loopback relay's decisions: routing, health, streaming, usage accounting
//! and the care of its local data, each with a verified contract.

pub mod text;
pub mod numbers;
pub mod decimal;
pub mod order;
pub mod validate;
pub mod timeutil;
pub mod json;
pub mod errors;
pub mod protocol;
pub mod sse;
pub mod stream;
pub mod recovery;
pub mod find;
pub mod store;
pub mod health;
pub mod keys;
pub mod routing;
pub mod recorder;
pub mod relay;
pub mod probe;
pub mod usage;
pub mod daily;
pub mod backup;
pub mod restore;
pub mod schema;
pub mod session;
pub mod storage;
pub mod log;
pub mod cli;
pub mod paths;
pub mod faults;
pub mod shell;
pub mod admin;
pub mod operations;
pub mod pages;
pub mod wire;
pub mod catalog;
