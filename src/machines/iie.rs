use vstd::prelude::*;
use super::Machine;

verus! {

pub const APPLE_IIE_NAME: &'static str = "Apple IIe";
pub const APPLE_IIE_DESCRIPTION: &'static str =
    "First machine in Echo Lab. Focus: accurate 65C02 core and timing.";

/// The Apple IIe.
pub fn apple_iie() -> (r: Machine)
    ensures
        r.name@ == APPLE_IIE_NAME@,
        r.description@ == APPLE_IIE_DESCRIPTION@,
{
    Machine { name: APPLE_IIE_NAME, description: APPLE_IIE_DESCRIPTION }
}

} // verus!
