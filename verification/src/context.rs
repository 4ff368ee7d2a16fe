use vstd::prelude::*;
use crate::config::Config;
use crate::domain::config::UsesConfigManager;
use crate::infra::config::ConfigManagerImpl;
use crate::infra::event::EventPublisherMqtt;
use crate::infra::order::OrderRepositoryBeebotte;
use crate::infra::shell::OrderExecutorShell;

verus! {

/// The parts of the running service, all made from one configuration.
pub struct AppContext {
    config_manager: ConfigManagerImpl,
    order_repository: OrderRepositoryBeebotte,
    event_publisher: EventPublisherMqtt,
    order_executor: OrderExecutorShell,
}

impl AppContext {
    pub closed spec fn spec_config_manager(&self) -> ConfigManagerImpl {
        self.config_manager
    }

    pub closed spec fn spec_order_repository(&self) -> OrderRepositoryBeebotte {
        self.order_repository
    }

    pub closed spec fn spec_event_publisher(&self) -> EventPublisherMqtt {
        self.event_publisher
    }

    /// Every part is made from `config`.
    pub fn new(config: Config) -> (r: AppContext)
        ensures
            r.spec_config_manager().spec_config() == config,
            r.spec_order_repository().spec_config() == config,
            r.spec_event_publisher().spec_config() == config,
    {
        let config_manager = ConfigManagerImpl::new(config.duplicate());
        let order_repository = OrderRepositoryBeebotte::new(config.duplicate());
        let event_publisher = EventPublisherMqtt::new(config);
        let order_executor = OrderExecutorShell::new();
        AppContext { config_manager, order_repository, event_publisher, order_executor }
    }

    pub fn order_repository(&self) -> (r: &OrderRepositoryBeebotte)
        ensures
            *r == self.spec_order_repository(),
    {
        &self.order_repository
    }

    pub fn event_publisher(&self) -> (r: &EventPublisherMqtt)
        ensures
            *r == self.spec_event_publisher(),
    {
        &self.event_publisher
    }

    pub fn order_executor(&self) -> &OrderExecutorShell {
        &self.order_executor
    }
}

impl UsesConfigManager for AppContext {
    type ConfigManager = ConfigManagerImpl;

    fn uses_config_manager(&self) -> (r: &ConfigManagerImpl)
        ensures
            *r == self.spec_config_manager(),
    {
        &self.config_manager
    }
}

} // verus!
