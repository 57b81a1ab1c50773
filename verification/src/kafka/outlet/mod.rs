//! The `kafka-outlet` command group.

pub mod create;

use vstd::prelude::*;

use self::create::CreateCommand;

verus! {

/// Manage Kafka Outlets.
#[derive(Clone, Debug)]
pub struct KafkaOutletCommand {
    pub subcommand: KafkaOutletSubcommand,
}

/// The subcommands of `kafka-outlet`.
#[derive(Clone, Debug)]
pub enum KafkaOutletSubcommand {
    Create(CreateCommand),
}

/// The name of a `kafka-outlet` subcommand.
pub open spec fn subcommand_name(s: KafkaOutletSubcommand) -> Seq<char> {
    match s {
        KafkaOutletSubcommand::Create(c) => c.spec_name(),
    }
}

impl KafkaOutletCommand {
    /// The name of the command: that of its subcommand.
    pub fn name(&self) -> (r: String)
        ensures
            r@ == subcommand_name(self.subcommand),
    {
        match &self.subcommand {
            KafkaOutletSubcommand::Create(c) => c.name(),
        }
    }
}

} // verus!
