use vstd::prelude::*;

pub mod iie;

verus! {

/// A machine that the lab emulates.
#[derive(Debug, Clone, Copy, PartialEq, Eq)]
pub struct Machine {
    pub name: &'static str,
    pub description: &'static str,
}

} // verus!
