//! Permission probe: whether the current process is a trusted
//! accessibility client. Platforms differ only in whether they have the
//! concept at all; the OS answer itself comes from the hosting shell.

use vstd::prelude::*;

verus! {

/// Whether the build platform has an accessibility-trust concept.
#[derive(Clone, Copy, PartialEq, Eq, Structural, Debug)]
pub enum Platform {
    WithAccessibilityModel,
    WithoutAccessibilityModel,
}

/// The trust verdict for the current process: on a platform with an
/// accessibility model it is exactly what the OS reported; on one without,
/// trust is vacuously granted.
pub fn accessibility_trusted(platform: Platform, os_reported: bool) -> (r: bool)
    ensures
        platform == Platform::WithAccessibilityModel ==> r == os_reported,
        platform == Platform::WithoutAccessibilityModel ==> r,
{
    match platform {
        Platform::WithAccessibilityModel => os_reported,
        Platform::WithoutAccessibilityModel => true,
    }
}

} // verus!
