//! Core logic of a UPS monitor: framing and parsing of the NUT line
//! protocol, a polling watchdog, a power-loss safety countdown, and an
//! adaptive history-logging policy with compaction.

pub mod db;
pub mod history;
pub mod models;
pub mod parser;
pub mod protocol;
pub mod safety;
pub mod text;
pub mod watchdog;

