pub mod config;
pub mod event;
pub mod order;

pub use self::config::{ConfigManager, UsesConfigManager};
pub use self::event::Event;
pub use self::order::Order;
