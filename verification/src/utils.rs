use crate::text::str_eq;
use vstd::prelude::*;

verus! {

/// The number of whole milliseconds in a duration of `secs` seconds and
/// `subsec_nanos` nanoseconds.
pub open spec fn spec_duration_as_milliseconds(secs: u64, subsec_nanos: u32) -> int {
    secs as int * 1000 + subsec_nanos as int / 1_000_000
}

/// Converts a duration, given as whole seconds and the nanoseconds of the
/// started second, to whole milliseconds.
pub fn duration_as_milliseconds(secs: u64, subsec_nanos: u32) -> (ms: u64)
    requires
        spec_duration_as_milliseconds(secs, subsec_nanos) <= u64::MAX,
    ensures
        ms == spec_duration_as_milliseconds(secs, subsec_nanos),
{
    let subsec_ms: u64 = (subsec_nanos / 1_000_000) as u64;
    secs * 1000 + subsec_ms
}

/// Whether `sysname` is the system name of macOS.
pub fn is_mac_sysname(sysname: &str) -> (r: bool)
    ensures
        r == (sysname@ == "Darwin"@),
{
    str_eq(sysname, "Darwin")
}

/// `uname::uname`: the system name that the host reports, or `None` where
/// the query fails. The name depends on the machine, so nothing is claimed
/// of it.
#[verifier::external_body]
fn host_sysname() -> Option<String> {
    match uname::uname() {
        Ok(info) => Some(info.sysname),
        Err(_) => None,
    }
}

/// Whether the host runs macOS, or `None` where the host does not tell its
/// system name. The answer is `is_mac_sysname` of whatever name the host
/// reports.
pub fn is_mac() -> Option<bool> {
    match host_sysname() {
        Some(sysname) => Some(is_mac_sysname(sysname.as_str())),
        None => None,
    }
}

} // verus!
