pub mod event_service;
pub mod order_service;
