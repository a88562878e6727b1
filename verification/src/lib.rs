//! Watches site mailboxes for dispatch-alert mails, extracts structured
//! incident data from their bodies with configurable pattern rules,
//! deduplicates pager codes across sites, and prepares the paging requests
//! that are forwarded to the alerting endpoint at most once per
//! (incident, code) pair.

pub mod config;
pub mod dispatch;
pub mod parser;
pub mod text;
pub mod watcher;

pub use config::{Configuration, KonfigKalender, ParsedData, ParsedV, PatternRules, Ric, RicV,
    RulesV, Standort};
