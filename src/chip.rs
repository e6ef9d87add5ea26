use vstd::prelude::*;
use crate::display::{font_bytes, Display};
use crate::keyboard::Keyboard;
use crate::opcode::{step, OpcodeHandler, Step};
use crate::program_counter::ProgramCounter;
use crate::registers::Registers;

verus! {

broadcast use {Registers::lemma_len, Keyboard::lemma_len};

/// Size of the memory in bytes.
pub const MEMORY_SIZE: usize = 4096;

/// Address at which programs are loaded and execution starts.
pub const PROGRAM_START: u16 = 0x200;

/// The largest program that fits between `PROGRAM_START` and the end of memory.
pub const MAX_PROGRAM_SIZE: usize = 3584;

/// Why the machine stopped. Each error carries the address of the
/// instruction that failed; the machine's state is left as it was before it.
#[derive(Clone, Copy, Debug, PartialEq, Eq, Structural)]
pub enum ChipError {
    /// No instruction has this encoding.
    UnknownOpcode { opcode: u16, address: u16 },
    /// A call with all sixteen stack slots in use.
    StackOverflow { address: u16 },
    /// A return with an empty stack.
    StackUnderflow { address: u16 },
    /// An instruction would read or write memory at or past address 4096.
    MemoryOutOfBounds { address: u16 },
    /// The program counter does not point into memory.
    ProgramCounterOutOfBounds { address: u16 },
}

/// The whole machine state, as plain mathematical values.
pub struct Machine {
    pub memory: Seq<u8>,
    pub v: Seq<u8>,
    pub i: u16,
    pub pc: u16,
    pub screen: Seq<u64>,
    pub redraw: bool,
    pub delay_timer: u8,
    pub sound_timer: u8,
    pub stack: Seq<u16>,
    pub sp: u8,
    pub keys: Seq<bool>,
}

/// The memory of a fresh machine: the font table at address 0, zeros after it.
pub open spec fn initial_memory() -> Seq<u8> {
    font_bytes() + Seq::new(4016, |_i: int| 0u8)
}

/// The state of a freshly created machine.
pub open spec fn initial_machine() -> Machine {
    Machine {
        memory: initial_memory(),
        v: Seq::new(16, |_i: int| 0u8),
        i: 0,
        pc: PROGRAM_START,
        screen: Seq::new(32, |_i: int| 0u64),
        redraw: false,
        delay_timer: 0,
        sound_timer: 0,
        stack: Seq::new(16, |_i: int| 0u16),
        sp: 0,
        keys: Seq::new(16, |_i: int| false),
    }
}

/// The memory after copying `program` to `PROGRAM_START` onwards.
pub open spec fn loaded(memory: Seq<u8>, program: Seq<u8>) -> Seq<u8> {
    Seq::new(
        memory.len(),
        |a: int|
            if PROGRAM_START <= a < PROGRAM_START + program.len() {
                program[a - PROGRAM_START]
            } else {
                memory[a]
            },
    )
}

/// The instruction word at the program counter: two bytes, big-endian.
pub open spec fn fetch(s: Machine) -> Result<u16, ChipError> {
    if s.pc as int + 1 < MEMORY_SIZE {
        Ok((s.memory[s.pc as int] as int * 256 + s.memory[s.pc + 1] as int) as u16)
    } else {
        Err(ChipError::ProgramCounterOutOfBounds { address: s.pc })
    }
}

/// One cycle: fetch the instruction word, then execute it.
pub open spec fn cycle(s: Machine, random: u8) -> Result<(Machine, Step), ChipError> {
    match fetch(s) {
        Ok(opcode) => step(s, opcode, random),
        Err(e) => Err(e),
    }
}

/// The timers after one tick: each counts down towards zero.
pub open spec fn ticked(t: u8) -> u8 {
    if t > 0 {
        (t - 1) as u8
    } else {
        0
    }
}

/// `r` and `after` are what `expected` says; on an error the state is unchanged.
pub open spec fn outcome<T>(
    r: Result<T, ChipError>,
    before: Machine,
    after: Machine,
    expected: Result<(Machine, T), ChipError>,
) -> bool {
    match expected {
        Ok((m, t)) => r == Ok::<T, ChipError>(t) && after == m,
        Err(e) => r == Err::<T, ChipError>(e) && after == before,
    }
}

/// The machine: memory, registers, program counter, call stack, timers,
/// framebuffer and keypad.
pub struct Chip {
    pub memory: [u8; 4096],
    /// Main registers of the chip (V0 - VE), VF is used as carry flag.
    pub v: Registers,
    /// Special "I" register, generally used to store memory addresses.
    pub i: u16,
    /// Address of the next instruction.
    pub program_counter: ProgramCounter,
    pub screen: Display,
    pub delay_timer: u8,
    pub sound_timer: u8,
    /// Saved return addresses; `stack_pointer` is the last filled slot.
    pub stack: [u16; 16],
    pub stack_pointer: u8,
    pub keyboard: Keyboard,
}

impl View for Chip {
    type V = Machine;

    open spec fn view(&self) -> Machine {
        Machine {
            memory: self.memory@,
            v: self.v@,
            i: self.i,
            pc: self.program_counter@,
            screen: self.screen.contents@,
            redraw: self.screen.should_redraw,
            delay_timer: self.delay_timer,
            sound_timer: self.sound_timer,
            stack: self.stack@,
            sp: self.stack_pointer,
            keys: self.keyboard@,
        }
    }
}

impl Chip {
    /// The stack pointer stays within the sixteen slots.
    pub open spec fn wf(&self) -> bool {
        self.stack_pointer <= 15
    }

    pub fn new() -> (r: Chip)
        ensures
            r@ == initial_machine(),
            r.wf(),
    {
        let font = Display::get_font();
        let mut memory = [0u8; 4096];
        let mut k: usize = 0;
        while k < 80
            invariant
                k <= 80,
                font@ == font_bytes(),
                forall|a: int| 0 <= a < k ==> memory@[a] == font@[a],
                forall|a: int| k <= a < 4096 ==> memory@[a] == 0u8,
            decreases 80 - k,
        {
            memory[k] = font[k];
            k = k + 1;
        }
        assert(memory@ =~= initial_memory());
        let chip = Chip {
            program_counter: ProgramCounter::new(PROGRAM_START),
            memory,
            v: Registers::new(),
            i: 0,
            screen: Display::new(),
            stack: [0; 16],
            delay_timer: 0,
            sound_timer: 0,
            stack_pointer: 0,
            keyboard: Keyboard::new(),
        };
        assert(chip.stack@ =~= Seq::new(16, |_i: int| 0u16));
        chip
    }

    /// Copies a program image into memory from `PROGRAM_START` onwards.
    pub fn load_program(&mut self, bytecode: &[u8])
        requires
            bytecode@.len() <= MAX_PROGRAM_SIZE,
        ensures
            final(self)@ == (Machine { memory: loaded(old(self)@.memory, bytecode@), ..old(self)@ }),
            final(self).wf() == old(self).wf(),
    {
        let mut k: usize = 0;
        while k < bytecode.len()
            invariant
                k <= bytecode@.len() <= MAX_PROGRAM_SIZE,
                self@ == (Machine { memory: self@.memory, ..old(self)@ }),
                self.stack_pointer == old(self).stack_pointer,
                self.memory@ =~= Seq::new(
                    4096,
                    |a: int|
                        if PROGRAM_START <= a < PROGRAM_START + k {
                            bytecode@[a - PROGRAM_START]
                        } else {
                            old(self).memory@[a]
                        },
                ),
            decreases bytecode@.len() - k,
        {
            self.memory[k + 512] = bytecode[k];
            k = k + 1;
        }
        assert(self.memory@ =~= loaded(old(self)@.memory, bytecode@));
    }

    /// Reads the instruction word at the program counter.
    pub fn decode_opcode(&self) -> (r: Result<u16, ChipError>)
        ensures
            r == fetch(self@),
    {
        let pc = self.program_counter.get();
        if pc as usize + 1 < MEMORY_SIZE {
            let first_byte = self.memory[pc as usize] as u16;
            let second_byte = self.memory[pc as usize + 1] as u16;
            Ok(first_byte * 256 + second_byte)
        } else {
            Err(ChipError::ProgramCounterOutOfBounds { address: pc })
        }
    }

    /// Fetches, decodes and executes one instruction. Random bytes for
    /// `CXNN` are drawn only when that instruction runs.
    pub fn cycle(&mut self, handler: &OpcodeHandler) -> (r: Result<Step, ChipError>)
        requires
            old(self).wf(),
            handler.wf(),
        ensures
            final(self).wf(),
            exists|random: u8| outcome(r, old(self)@, final(self)@, #[trigger] cycle(old(self)@, random)),
    {
        match self.decode_opcode() {
            Ok(opcode) => {
                let r = handler.next(opcode, self);
                proof {
                    let random = choose|random: u8|
                        outcome(r, old(self)@, self@, #[trigger] step(old(self)@, opcode, random));
                    assert(outcome(r, old(self)@, self@, cycle(old(self)@, random)));
                }
                r
            },
            Err(e) => {
                assert(outcome(Err::<Step, ChipError>(e), self@, self@, cycle(self@, 0)));
                Err(e)
            },
        }
    }

    /// One tick of the two timers: each counts down towards zero.
    pub fn tick_timers(&mut self)
        ensures
            final(self)@ == (Machine {
                delay_timer: ticked(old(self).delay_timer),
                sound_timer: ticked(old(self).sound_timer),
                ..old(self)@
            }),
            final(self).wf() == old(self).wf(),
    {
        if self.delay_timer > 0 {
            self.delay_timer = self.delay_timer - 1;
        }
        if self.sound_timer > 0 {
            self.sound_timer = self.sound_timer - 1;
        }
    }
}

} // verus!
