//! The health report of the service.
use vstd::prelude::*;

verus! {

/// The health report: the version of its schema, the service's label and
/// its state.
pub struct HealthSchema {
    pub schema_version: i32,
    pub label: &'static str,
    pub message: &'static str,
}

/// The report that the health check answers with: schema version 1, label
/// `tectonic-api`, message `online`.
pub fn health() -> (r: HealthSchema)
    ensures
        r.schema_version == 1,
        r.label@ == "tectonic-api"@,
        r.message@ == "online"@,
{
    HealthSchema { schema_version: 1, label: "tectonic-api", message: "online" }
}

} // verus!
