//! The workspace: a directory named after the moment at which a run starts.

use crate::decimal::{decimal, decimal_string, lemma_decimal_injective};
use std::time::{Duration, SystemTime, SystemTimeError, UNIX_EPOCH};
use vstd::prelude::*;

verus! {

/// `std::time::SystemTime`, a reading of the system clock. Nothing is known of its inside.
#[verifier::external_type_specification]
#[verifier::external_body]
pub struct ExSystemTime(SystemTime);

/// `std::time::SystemTimeError`, the error of a clock reading that lies before the moment it
/// is measured from. Nothing is known of its inside.
#[verifier::external_type_specification]
#[verifier::external_body]
pub struct ExSystemTimeError(SystemTimeError);

/// `SystemTime::now` reads the system clock. Nothing is claimed of the reading.
pub assume_specification[ SystemTime::now ]() -> (now: SystemTime)
;

/// `Duration::as_millis` gives the whole milliseconds of a duration. Nothing is claimed of
/// the number.
pub assume_specification[ Duration::as_millis ](duration: &Duration) -> (millis: u128)
;

/// `SystemTime::duration_since`, measured from `UNIX_EPOCH`: the time that has passed since
/// the epoch, or an error for a clock set before it. Nothing is claimed of either.
#[verifier::external_body]
fn since_epoch(moment: &SystemTime) -> (elapsed: Result<Duration, SystemTimeError>) {
    moment.duration_since(UNIX_EPOCH)
}

/// The name of the workspace of a run that starts `millis` milliseconds after the epoch:
/// `temp_` and the number in decimal notation.
pub open spec fn workspace_name(millis: nat) -> Seq<char> {
    "temp_"@ + decimal(millis)
}

/// Runs that start at different milliseconds work in directories of different names.
pub proof fn lemma_names_differ(first: nat, second: nat)
    requires
        first != second,
    ensures
        workspace_name(first) != workspace_name(second),
{
    if workspace_name(first) == workspace_name(second) {
        let prefix = "temp_"@;
        assert(decimal(first) =~= workspace_name(first).skip(prefix.len() as int));
        assert(decimal(second) =~= workspace_name(second).skip(prefix.len() as int));
        lemma_decimal_injective(first, second);
    }
}

/// The workspace name for the given milliseconds since the epoch.
pub fn temp_dir_name(millis: u128) -> (name: String)
    ensures
        name@ == workspace_name(millis as nat),
{
    let mut name = "temp_".to_owned();
    let number = decimal_string(millis);
    name.append(number.as_str());
    name
}

/// The workspace name for the present moment, or the clock's error where the clock stands
/// before the epoch.
pub fn create_temp_dir_name() -> (name: Result<String, SystemTimeError>)
    ensures
        name matches Ok(text) ==> exists|millis: u128| text@ == workspace_name(millis as nat),
{
    let now = SystemTime::now();
    match since_epoch(&now) {
        Ok(elapsed) => {
            let millis: u128 = elapsed.as_millis();
            Ok(temp_dir_name(millis))
        },
        Err(error) => Err(error),
    }
}

} // verus!
