//! The `kafka-outlet create` command.

use vstd::prelude::*;

verus! {

/// Create a new Kafka Outlet.
#[derive(Clone, Debug)]
pub struct CreateCommand {}

impl CreateCommand {
    /// The command's name as text.
    pub open spec fn spec_name(self) -> Seq<char> {
        "kafka-outlet create"@
    }

    /// The command's name.
    pub fn name(&self) -> (r: String)
        ensures
            r@ == self.spec_name(),
    {
        "kafka-outlet create".to_string()
    }
}

} // verus!
