//! Order relay: a service that keeps a list of shell orders in a Beebotte
//! channel, listens for events on an MQTT channel and runs the orders that an
//! event names on this host.
//!
//! This crate holds the service's logic; the network, process and thread work
//! lives in the program around it.
pub mod application;
pub mod config;
pub mod context;
pub mod domain;
pub mod infra;
pub mod json;
pub mod text;
