use vstd::prelude::*;
use crate::machines::Machine;

verus! {

/// Abstract lab: its title and its machines in the order they were added.
pub struct LabModel {
    pub title: Seq<char>,
    pub machines: Seq<Machine>,
}

/// A titled collection of emulated machines.
pub struct Lab {
    title: String,
    machines: Vec<Machine>,
}

impl View for Lab {
    type V = LabModel;

    closed spec fn view(&self) -> LabModel {
        LabModel { title: self.title@, machines: self.machines@ }
    }
}

impl Lab {
    pub fn new(title: &str) -> (r: Lab)
        ensures
            r@.title == title@,
            r@.machines == Seq::<Machine>::empty(),
    {
        Lab { title: title.to_owned(), machines: Vec::new() }
    }

    /// The same lab with `machine` added last.
    pub fn with_machine(self, machine: Machine) -> (r: Lab)
        ensures
            r@.title == self@.title,
            r@.machines == self@.machines.push(machine),
    {
        let mut lab = self;
        lab.machines.push(machine);
        lab
    }

    pub fn title(&self) -> (r: &str)
        ensures
            r@ == self@.title,
    {
        self.title.as_str()
    }

    pub fn machines(&self) -> (r: &[Machine])
        ensures
            r@ == self@.machines,
    {
        self.machines.as_slice()
    }
}

} // verus!
