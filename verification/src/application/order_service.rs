use vstd::prelude::*;
use crate::domain::order::{is_simple_v4_uuid, Order};

verus! {

/// A request to register an order.
#[derive(Clone, Debug)]
pub struct RegisterNewOrderCommand {
    pub name: String,
    pub target: Option<String>,
    pub command: String,
}

impl RegisterNewOrderCommand {
    /// The order to register: the request's fields under a fresh identifier.
    pub fn into_order(self) -> (r: Order)
        ensures
            is_simple_v4_uuid(r.id@),
            r.name == self.name,
            r.target == self.target,
            r.command == self.command,
    {
        Order::new(self.name, self.target, self.command)
    }
}

} // verus!
