//! Verified core of a host-monitoring service: alert and report text for a
//! chat bot, configuration parsing, request authentication, log-line
//! classification and the decisions of the bot and the connector.

pub mod auth;
pub mod bot;
pub mod config;
pub mod connector;
pub mod informer;
pub mod models;
pub mod numbers;
pub mod pattern;
pub mod registry;
pub mod templates;
pub mod text;
