use vstd::prelude::*;

verus! {

/// A request, received on the events channel, to run the orders of a name.
#[derive(Clone, PartialEq, Eq, Debug)]
pub struct Event {
    pub id: String,
    /// Name of the orders to run.
    pub order_name: String,
    /// Seconds to wait before running them; `None` means no wait.
    pub duration: Option<u64>,
    /// Text to append, after a space, to the command line of each order.
    pub arg: Option<String>,
    /// Creation time, as RFC 3339 text in UTC.
    pub created_at: String,
}

} // verus!
