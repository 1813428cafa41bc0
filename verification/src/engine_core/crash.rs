//! The text of the crash report the panic hook records.

use vstd::prelude::*;

verus! {

/// The crash report for a panic at `location` with `message`.
pub fn crash_report(location: &str, message: &str) -> (r: String)
    ensures
        r@ == "Veltrix Engine Panic!\n\nLocation: "@ + location@ + "\nMessage: "@ + message@,
{
    let mut report = String::from_str("Veltrix Engine Panic!\n\nLocation: ");
    report.append(location);
    report.append("\nMessage: ");
    report.append(message);
    report
}

} // verus!
