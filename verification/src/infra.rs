pub mod config;
pub mod event;
pub mod order;
pub mod rest;
pub mod shell;
