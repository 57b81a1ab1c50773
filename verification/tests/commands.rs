use ockam_logic::kafka::outlet::create::CreateCommand as OutletCreateCommand;
use ockam_logic::kafka::outlet::{KafkaOutletCommand, KafkaOutletSubcommand};
use ockam_logic::lease::{format_expiry, CreateCommand, LeaseError};

#[test]
fn lease_create_name() {
    assert_eq!(CreateCommand {}.name(), "lease create");
}

#[test]
fn kafka_outlet_name_is_the_subcommand_name() {
    let c = KafkaOutletCommand { subcommand: KafkaOutletSubcommand::Create(OutletCreateCommand {}) };
    assert_eq!(c.name(), OutletCreateCommand {}.name());
    assert_eq!(c.name(), "kafka-outlet create");
}

#[test]
fn lease_expiry_is_shown_as_date_and_time() {
    assert_eq!(format_expiry("2024-13-01T10:20:30"), Err(LeaseError::InvalidExpiry));
    assert_eq!(format_expiry("2024-05-01T10:20:30").unwrap(), "2024-05-01 10:20:30.0");
    assert_eq!(format_expiry("not a date"), Err(LeaseError::InvalidExpiry));
}
