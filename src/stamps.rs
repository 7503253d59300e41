use vstd::prelude::*;

use std::time::SystemTime;
use uuid::Uuid;

verus! {

/// Identifiers from the uuid crate; opaque to the proofs.
#[verifier::external_type_specification]
#[verifier::external_body]
pub struct ExUuid(Uuid);

/// Wall-clock instants of std; opaque to the proofs.
#[verifier::external_type_specification]
#[verifier::external_body]
pub struct ExSystemTime(SystemTime);

/// Relies on uuid's derived `Clone` for `Uuid`, a `Copy` type: the copy
/// equals the original.
pub assume_specification[ <Uuid as Clone>::clone ](u: &Uuid) -> (r: Uuid)
    ensures
        r == *u,
;

/// Relies on std's `Clone` for `SystemTime`, a `Copy` type: the copy equals
/// the original.
pub assume_specification[ <SystemTime as Clone>::clone ](t: &SystemTime) -> (r: SystemTime)
    ensures
        r == *t,
;

/// Relies on uuid's `Uuid::new_v4`: a fresh random identifier; nothing is
/// promised of its value.
#[verifier::external_body]
pub(crate) fn fresh_id() -> Uuid {
    Uuid::new_v4()
}

/// Relies on std's `SystemTime::now`: the current wall-clock time; nothing is
/// promised of its value.
#[verifier::external_body]
pub(crate) fn now() -> SystemTime {
    SystemTime::now()
}

} // verus!
