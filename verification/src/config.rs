use vstd::prelude::*;

verus! {

/// Settings of one running instance, read from `ASGR_`-prefixed environment
/// variables.
#[derive(Clone, Debug)]
pub struct Config {
    /// Name of this host; an order whose target is set runs only on the host of that name.
    pub name: String,
    /// Port of the HTTP server.
    pub port: String,
    /// Base URL of the Beebotte REST API.
    pub beebotte_rest_url: String,
    /// URI of the Beebotte MQTT broker.
    pub beebotte_mqtt_url: String,
    /// Channel token used both for REST and for MQTT.
    pub beebotte_channel_token: String,
    /// Channel (path) that stores the list of orders.
    pub beebotte_orders_channel: String,
    /// Channel (topic) that carries events.
    pub beebotte_events_channel: String,
}

impl Config {
    /// A field-by-field copy.
    pub fn duplicate(&self) -> (r: Config)
        ensures
            r == *self,
    {
        Config {
            name: self.name.clone(),
            port: self.port.clone(),
            beebotte_rest_url: self.beebotte_rest_url.clone(),
            beebotte_mqtt_url: self.beebotte_mqtt_url.clone(),
            beebotte_channel_token: self.beebotte_channel_token.clone(),
            beebotte_orders_channel: self.beebotte_orders_channel.clone(),
            beebotte_events_channel: self.beebotte_events_channel.clone(),
        }
    }
}

} // verus!
