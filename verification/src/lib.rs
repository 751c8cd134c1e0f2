//! Verified core of the Monolith cementing-telemetry application.

pub mod text;

pub mod record;
pub mod ascii_error;
pub mod ascii_parser;
pub mod ascii_listener;
pub mod units;
pub mod time;
pub mod metadata;
pub mod data;
pub mod csv_error;
pub mod csv_parser;
pub mod csv_manager;
pub mod telemetry;
pub mod serial;
pub mod chart_events;
pub mod ascii_stream;
pub mod menu;
pub mod commands;
