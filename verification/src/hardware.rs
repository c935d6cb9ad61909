//! Which temperature sensor of the machine reports the CPU.

use vstd::prelude::*;

use crate::text::{ascii_lower, contains_seq, str_contains};

verus! {

/// How well a sensor label identifies the CPU: 2 for the CPU package, 1
/// for another CPU or processor sensor, 0 for anything else. Labels are
/// compared without regard to ASCII case.
pub open spec fn sensor_rank(label: Seq<char>) -> u8 {
    let l = ascii_lower(label);
    if contains_seq(l, "cpu package"@) || contains_seq(l, "package id"@) {
        2
    } else if contains_seq(l, "cpu"@) || contains_seq(l, "processor"@) {
        1
    } else {
        0
    }
}

/// How well a sensor label identifies the CPU; readings of rank 0 are not
/// CPU temperatures, and among the others the highest rank wins.
pub fn sensor_priority(label: &str) -> (r: u8)
    ensures
        r == sensor_rank(label@),
{
    let l = crate::text::ascii_lowercase(label);
    if str_contains(l.as_str(), "cpu package") || str_contains(l.as_str(), "package id") {
        2
    } else if str_contains(l.as_str(), "cpu") || str_contains(l.as_str(), "processor") {
        1
    } else {
        0
    }
}

} // verus!
