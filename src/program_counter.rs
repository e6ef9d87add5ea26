use vstd::prelude::*;

verus! {

/// The address of the next instruction to fetch.
#[derive(Debug)]
pub struct ProgramCounter(pub u16);

impl View for ProgramCounter {
    type V = u16;

    open spec fn view(&self) -> u16 {
        self.0
    }
}

impl ProgramCounter {
    pub fn new(initial: u16) -> (r: ProgramCounter)
        ensures
            r@ == initial,
    {
        ProgramCounter(initial)
    }

    pub fn set(&mut self, num: u16)
        ensures
            final(self)@ == num,
    {
        self.0 = num;
    }

    pub fn get(&self) -> (r: u16)
        ensures
            r == self@,
    {
        self.0
    }

    /// Moves past the current two-byte instruction.
    pub fn increment(&mut self)
        requires
            old(self)@ <= u16::MAX - 2,
        ensures
            final(self)@ == old(self)@ + 2,
    {
        self.0 = self.0 + 2;
    }
}

impl PartialEq<u16> for ProgramCounter {
    fn eq(&self, other: &u16) -> (r: bool) {
        self.0 == *other
    }
}

impl vstd::std_specs::cmp::PartialEqSpecImpl<u16> for ProgramCounter {
    open spec fn obeys_eq_spec() -> bool {
        true
    }

    open spec fn eq_spec(&self, other: &u16) -> bool {
        self.0 == *other
    }
}

} // verus!
