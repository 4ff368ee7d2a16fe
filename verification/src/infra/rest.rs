use vstd::prelude::*;
use crate::application::order_service::RegisterNewOrderCommand;

verus! {

/// Body of a request that registers an order.
pub struct PostOrderParam {
    pub name: String,
    pub target: Option<String>,
    pub command: String,
}

impl PostOrderParam {
    /// The registration that the request asks for.
    pub fn into_command(self) -> (r: RegisterNewOrderCommand)
        ensures
            r.name == self.name,
            r.target == self.target,
            r.command == self.command,
    {
        RegisterNewOrderCommand { name: self.name, target: self.target, command: self.command }
    }
}

} // verus!
