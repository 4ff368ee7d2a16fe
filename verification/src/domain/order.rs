use vstd::prelude::*;

verus! {

/// A shell command registered under a name. When an event names the order,
/// every host that the order targets runs its command.
#[derive(Clone, PartialEq, Eq, Debug)]
pub struct Order {
    /// Identifier: 32 lower-case hexadecimal digits of a random (version 4) UUID.
    pub id: String,
    /// Name that events refer to.
    pub name: String,
    /// Host name that the order is restricted to; `None` means every host.
    pub target: Option<String>,
    /// Command line to run.
    pub command: String,
}

/// `c` is a lower-case hexadecimal digit.
pub open spec fn is_lower_hex_digit(c: char) -> bool {
    ('0' <= c && c <= '9') || ('a' <= c && c <= 'f')
}

/// `s` is a version 4, RFC 4122 variant UUID written as 32 lower-case hex
/// digits without hyphens: the version nibble (digit 12) is `4` and the
/// variant nibble (digit 16) is one of `8`, `9`, `a`, `b`.
pub open spec fn is_simple_v4_uuid(s: Seq<char>) -> bool {
    &&& s.len() == 32
    &&& forall|i: int| 0 <= i < 32 ==> is_lower_hex_digit(#[trigger] s[i])
    &&& s[12] == '4'
    &&& (s[16] == '8' || s[16] == '9' || s[16] == 'a' || s[16] == 'b')
}

/// Calls `uuid::Uuid::new_v4()` and renders it with `to_simple()`.
///
/// The contract claims that the result is a version 4 UUID in the simple
/// lower-case form: `new_v4` sets the version and variant bits of sixteen
/// random bytes, and the simple adapter writes each byte as two lower-case hex
/// digits. Which UUID comes out is random and left unsaid; `new_v4` panics if
/// the operating system has no random bytes to give, which no input can rule out.
#[verifier::external_body]
fn fresh_order_id() -> (id: String)
    ensures
        is_simple_v4_uuid(id@),
{
    uuid::Uuid::new_v4().to_simple().to_string()
}

impl Order {
    /// A new order with a fresh random identifier.
    pub fn new(name: String, target: Option<String>, command: String) -> (order: Order)
        ensures
            is_simple_v4_uuid(order.id@),
            order.name == name,
            order.target == target,
            order.command == command,
    {
        Order { id: fresh_order_id(), name, target, command }
    }
}

} // verus!
