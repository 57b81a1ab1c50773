//! The `lease create` command: creates a token in the lease token manager
//! and shows it, with its expiry date.

use time::format_description::well_known::Iso8601;
use time::PrimitiveDateTime;
use vstd::prelude::*;

verus! {

/// Create a token within the lease token manager.
#[derive(Clone, Debug)]
pub struct CreateCommand {}

impl CreateCommand {
    /// The command's name.
    pub fn name(&self) -> (r: String)
        ensures
            r@ == "lease create"@,
    {
        "lease create".to_string()
    }
}

/// Why a lease token could not be shown.
#[derive(Clone, Copy, PartialEq, Eq, Debug, Structural)]
pub enum LeaseError {
    /// The expiry date of the token is not an ISO 8601 date and time.
    InvalidExpiry,
}

/// What the `time` crate shows for `text` read as an ISO 8601 date and time:
/// nothing when `PrimitiveDateTime::parse(text, &Iso8601::DEFAULT)` refuses
/// it, otherwise the `Display` text of the parsed date and time.
pub uninterp spec fn iso8601_date_time_shown(text: Seq<char>) -> Option<Seq<char>>;

/// `PrimitiveDateTime::parse(text, &Iso8601::DEFAULT)` of the `time` crate,
/// with the parsed value turned into its `Display` text. The result is named:
/// it depends on `text` alone.
#[verifier::external_body]
fn show_iso8601_date_time(text: &str) -> (r: Option<String>)
    ensures
        match r {
            Some(shown) => iso8601_date_time_shown(text@) == Some(shown@),
            None => iso8601_date_time_shown(text@) is None,
        },
{
    match PrimitiveDateTime::parse(text, &Iso8601::DEFAULT) {
        Ok(date_time) => Some(date_time.to_string()),
        Err(_) => None,
    }
}

/// The expiry date of a lease token as the command shows it: the ISO 8601
/// date and time `expires`, written the way `time` displays dates and times.
pub fn format_expiry(expires: &str) -> (r: Result<String, LeaseError>)
    ensures
        match r {
            Ok(shown) => iso8601_date_time_shown(expires@) == Some(shown@),
            Err(e) => iso8601_date_time_shown(expires@) is None && e == LeaseError::InvalidExpiry,
        },
{
    match show_iso8601_date_time(expires) {
        Some(shown) => Ok(shown),
        None => Err(LeaseError::InvalidExpiry),
    }
}

} // verus!
