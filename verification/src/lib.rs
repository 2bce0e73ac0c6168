//! Verified core of the Oxidite web framework: text handling, routing
//! decisions, configuration, query building, caching, mail and CLI logic.
pub mod text;
pub mod cli;
pub mod db;
pub mod http;
pub mod config;
pub mod graphql;
pub mod mail;
