use vstd::prelude::*;

verus! {

/// The sixteen general-purpose byte registers V0..VF. VF doubles as the
/// carry, borrow and collision flag.
pub struct Registers {
    regs: [u8; 16],
}

/// Where in an instruction word a register index is encoded.
#[derive(Clone, Copy, Debug, PartialEq, Eq, Structural)]
pub enum Position {
    ///Second 4 bits (0X00)
    X,
    ///Third 4 bits (00Y0)
    Y,
}

/// The index of the flag register VF.
pub const FLAG: u8 = 15;

/// The register index that `position` selects in `opcode`.
pub open spec fn index_at(opcode: u16, position: Position) -> u8 {
    match position {
        Position::X => ((opcode >> 8u16) & 0xFu16) as u8,
        Position::Y => ((opcode >> 4u16) & 0xFu16) as u8,
    }
}

impl View for Registers {
    type V = Seq<u8>;

    closed spec fn view(&self) -> Seq<u8> {
        self.regs@
    }
}

impl Registers {
    pub broadcast proof fn lemma_len(r: &Registers)
        ensures
            #[trigger] r@.len() == 16,
    {
    }

    pub fn new() -> (r: Registers)
        ensures
            r@ == Seq::new(16, |_i: int| 0u8),
    {
        let r = Registers { regs: [0; 16] };
        assert(r@ =~= Seq::new(16, |_i: int| 0u8));
        r
    }

    pub fn get(&self, index: u8) -> (r: u8)
        requires
            index < 16,
        ensures
            r == self@[index as int],
    {
        self.regs[index as usize]
    }

    pub fn set(&mut self, index: u8, value: u8)
        requires
            index < 16,
        ensures
            final(self)@ == old(self)@.update(index as int, value),
    {
        self.regs[index as usize] = value;
    }

    /// Adds `value` to register `index`, wrapping modulo 256 and leaving VF alone.
    pub fn add_immediate(&mut self, index: u8, value: u8)
        requires
            index < 16,
        ensures
            final(self)@ == old(self)@.update(
                index as int,
                ((old(self)@[index as int] + value) % 256) as u8,
            ),
    {
        let sum: u16 = self.regs[index as usize] as u16 + value as u16;
        self.regs[index as usize] = (sum % 256) as u8;
    }

    /// Extracts the register index at `position` from an instruction word.
    pub fn get_index(opcode: u16, position: Position) -> (r: u8)
        ensures
            r == index_at(opcode, position),
            r < 16,
    {
        match position {
            Position::X => {
                let r = ((opcode & 0x0F00) >> 8) as u8;
                assert(((opcode & 0x0F00) >> 8u16) == ((opcode >> 8u16) & 0xFu16)) by (bit_vector);
                assert(((opcode >> 8u16) & 0xFu16) < 16) by (bit_vector);
                r
            },
            Position::Y => {
                let r = ((opcode & 0x00F0) >> 4) as u8;
                assert(((opcode & 0x00F0) >> 4u16) == ((opcode >> 4u16) & 0xFu16)) by (bit_vector);
                assert(((opcode >> 4u16) & 0xFu16) < 16) by (bit_vector);
                r
            },
        }
    }

    /// Writes the outcome of a flag-setting instruction into VF: 1 or 0.
    pub fn set_carry(&mut self, carried: bool)
        ensures
            final(self)@ == old(self)@.update(FLAG as int, if carried { 1u8 } else { 0u8 }),
    {
        if carried {
            self.regs[15] = 1;
        } else {
            self.regs[15] = 0;
        }
    }
}

} // verus!
