//! Vaults that pass from their owners to beneficiaries, the records kept about them, webhooks that
//! tell of their events, and soulbound tokens.
//!
//! The library decides and computes. It makes the statements for the database and reads the
//! answers, plans the delivery of events, and carries out the calls of the token contract on a
//! state that is handed to it. Whoever uses it runs the statements, sends the requests and keeps
//! the state.

pub mod analytics;
pub mod analytics_laws;
pub mod audit_laws;
pub mod audit_log;
pub mod audit_words;
pub mod cache;
pub mod db;
pub mod idempotency;
pub mod ids;
pub mod insurance;
pub mod json;
pub mod keyed;
pub mod migration_laws;
pub mod migrations;
pub mod models;
pub mod pool;
pub mod record_laws;
pub mod reminders;
pub mod sbt;
pub mod sbt_contract;
pub mod sbt_laws;
pub mod sbt_outcomes;
pub mod search_laws;
pub mod sql;
pub mod statement_laws;
pub mod store_laws;
pub mod table_laws;
pub mod tables;
pub mod text;
pub mod timestamp;
pub mod two_factor;
pub mod unsubscribe;
pub mod value_laws;
pub mod vaults;
pub mod webhook;
pub mod webhook_laws;
