use vstd::prelude::*;
use std::collections::HashMap;
use crate::chip::{outcome, Chip, ChipError, Machine, MEMORY_SIZE};
use crate::display::{collides, drawn};
use vstd::arithmetic::div_mod::lemma_small_mod;
use crate::keyboard::Keyboard;
use crate::registers::{index_at, Position, Registers, FLAG};

verus! {

broadcast use {
    Registers::lemma_len,
    Keyboard::lemma_len,
    vstd::std_specs::hash::group_hash_axioms,
};

/// An instruction word, big-endian as fetched.
pub type Opcode = u16;

/// The instruction families, one per handler.
#[derive(Clone, Copy, Debug, PartialEq, Eq, Structural)]
pub enum Instruction {
    Clear,
    Ret,
    Jp,
    Call,
    Se,
    Sne,
    Sre,
    Ld,
    Add,
    Ldr,
    Or,
    And,
    Xor,
    Addreg,
    Subreg,
    Shiftr,
    Sub,
    Shiftl,
    Srne,
    Ldi,
    Jmpv0,
    Rand,
    Print,
    Skp,
    Sknp,
    Ldvxdt,
    Ldvxkey,
    Lddtvx,
    Ldstvs,
    Addivx,
    Ldfvx,
    Bcd,
    Ldiv0vx,
    Ldv0vxi,
}

/// What the driver of the machine has to do after an instruction.
#[derive(Clone, Copy, Debug, PartialEq, Eq, Structural)]
pub enum Step {
    /// Go on with the next cycle.
    Continue,
    /// Block until a keypad key is pressed, then hand it to
    /// `OpcodeHandler::ldvxkey` for the register given here.
    AwaitKey(u8),
}

/// The bits of an instruction word that select its handler: the top nibble,
/// and for the `0`, `8`, `E` and `F` families a secondary part.
pub open spec fn normalized(opcode: u16) -> u16 {
    let top = opcode & 0xF000u16;
    if top == 0x0000u16 {
        opcode & 0x00FFu16
    } else if top == 0x8000u16 {
        opcode & 0xF00Fu16
    } else if top == 0xE000u16 || top == 0xF000u16 {
        opcode & 0xF0FFu16
    } else {
        top
    }
}

/// The handler that a normalized key selects, if any.
pub open spec fn decode(key: u16) -> Option<Instruction> {
    match key {
        0x00E0u16 => Some(Instruction::Clear),
        0x00EEu16 => Some(Instruction::Ret),
        0x1000u16 => Some(Instruction::Jp),
        0x2000u16 => Some(Instruction::Call),
        0x3000u16 => Some(Instruction::Se),
        0x4000u16 => Some(Instruction::Sne),
        0x5000u16 => Some(Instruction::Sre),
        0x6000u16 => Some(Instruction::Ld),
        0x7000u16 => Some(Instruction::Add),
        0x8000u16 => Some(Instruction::Ldr),
        0x8001u16 => Some(Instruction::Or),
        0x8002u16 => Some(Instruction::And),
        0x8003u16 => Some(Instruction::Xor),
        0x8004u16 => Some(Instruction::Addreg),
        0x8005u16 => Some(Instruction::Subreg),
        0x8006u16 => Some(Instruction::Shiftr),
        0x8007u16 => Some(Instruction::Sub),
        0x800Eu16 => Some(Instruction::Shiftl),
        0x9000u16 => Some(Instruction::Srne),
        0xA000u16 => Some(Instruction::Ldi),
        0xB000u16 => Some(Instruction::Jmpv0),
        0xC000u16 => Some(Instruction::Rand),
        0xD000u16 => Some(Instruction::Print),
        0xE09Eu16 => Some(Instruction::Skp),
        0xE0A1u16 => Some(Instruction::Sknp),
        0xF007u16 => Some(Instruction::Ldvxdt),
        0xF00Au16 => Some(Instruction::Ldvxkey),
        0xF015u16 => Some(Instruction::Lddtvx),
        0xF018u16 => Some(Instruction::Ldstvs),
        0xF01Eu16 => Some(Instruction::Addivx),
        0xF029u16 => Some(Instruction::Ldfvx),
        0xF033u16 => Some(Instruction::Bcd),
        0xF055u16 => Some(Instruction::Ldiv0vx),
        0xF065u16 => Some(Instruction::Ldv0vxi),
        _ => None,
    }
}

/// The dispatch table as a map from normalized key to handler.
pub open spec fn dispatch_table() -> Map<u16, Instruction> {
    Map::new(|k: u16| decode(k) is Some, |k: u16| decode(k)->Some_0)
}

/// Control-flow instructions set the program counter themselves; every other
/// instruction is followed by a step of 2.
pub open spec fn sets_counter(ins: Instruction) -> bool {
    ins is Jp || ins is Call || ins is Ret || ins is Jmpv0
}

/// Compare-and-skip instructions.
pub open spec fn is_skip(ins: Instruction) -> bool {
    ins is Se || ins is Sne || ins is Sre || ins is Srne || ins is Skp || ins is Sknp
}

/// Register indices taken from an instruction word are below 16.
pub proof fn lemma_index_bounds(opcode: u16)
    ensures
        0 <= reg_x(opcode) < 16,
        0 <= reg_y(opcode) < 16,
{
    assert((opcode >> 8u16) & 0xFu16 < 16) by (bit_vector);
    assert((opcode >> 4u16) & 0xFu16 < 16) by (bit_vector);
}

pub open spec fn reg_x(opcode: u16) -> int {
    index_at(opcode, Position::X) as int
}

pub open spec fn reg_y(opcode: u16) -> int {
    index_at(opcode, Position::Y) as int
}

/// The low byte `NN` of an instruction word.
pub open spec fn low_byte(opcode: u16) -> u8 {
    (opcode & 0x00FFu16) as u8
}

/// The address `NNN` of an instruction word.
pub open spec fn address_of(opcode: u16) -> u16 {
    opcode & 0x0FFFu16
}

pub open spec fn flag_value(b: bool) -> u8 {
    if b {
        1
    } else {
        0
    }
}

/// Register `x` set to `value`, then VF set to the flag: the flag is written last.
pub open spec fn with_flag(v: Seq<u8>, x: int, value: u8, flag: bool) -> Seq<u8> {
    v.update(x, value).update(FLAG as int, flag_value(flag))
}

/// Whether logical key `k` is down in `keys`.
pub open spec fn key_down(keys: Seq<bool>, k: u8) -> bool {
    k < 16 && keys[k as int]
}

/// Whether the skip condition of a compare-and-skip instruction holds.
pub open spec fn skip_condition(ins: Instruction, s: Machine, opcode: u16) -> bool {
    let vx = s.v[reg_x(opcode)];
    let vy = s.v[reg_y(opcode)];
    match ins {
        Instruction::Se => vx == low_byte(opcode),
        Instruction::Sne => vx != low_byte(opcode),
        Instruction::Sre => vx == vy,
        Instruction::Srne => vx != vy,
        Instruction::Skp => key_down(s.keys, vx),
        Instruction::Sknp => !key_down(s.keys, vx),
        _ => false,
    }
}

/// The state with the program counter moved past one instruction.
pub open spec fn advanced(s: Machine) -> Machine {
    Machine { pc: (s.pc + 2) as u16, ..s }
}

/// What a handler does to the machine, before the dispatcher's step of the
/// program counter. `random` is the byte that `CXNN` masks.
pub open spec fn effect(ins: Instruction, s: Machine, opcode: u16, random: u8) -> Result<
    Machine,
    ChipError,
> {
    let x = reg_x(opcode);
    let y = reg_y(opcode);
    let vx = s.v[x];
    let vy = s.v[y];
    let nn = low_byte(opcode);
    match ins {
        Instruction::Clear => Ok(
            Machine { screen: Seq::new(32, |_i: int| 0u64), redraw: true, ..s },
        ),
        Instruction::Ret => if s.sp == 0 {
            Err(ChipError::StackUnderflow { address: s.pc })
        } else {
            Ok(Machine { pc: s.stack[s.sp as int], sp: (s.sp - 1) as u8, ..s })
        },
        Instruction::Jp => Ok(Machine { pc: address_of(opcode), ..s }),
        Instruction::Call => if s.sp >= 15 {
            Err(ChipError::StackOverflow { address: s.pc })
        } else {
            Ok(
                Machine {
                    pc: address_of(opcode),
                    sp: (s.sp + 1) as u8,
                    stack: s.stack.update(s.sp + 1, s.pc),
                    ..s
                },
            )
        },
        Instruction::Se | Instruction::Sne | Instruction::Sre | Instruction::Srne
        | Instruction::Skp | Instruction::Sknp => Ok(
            if skip_condition(ins, s, opcode) {
                advanced(s)
            } else {
                s
            },
        ),
        Instruction::Ld => Ok(Machine { v: s.v.update(x, nn), ..s }),
        Instruction::Add => Ok(Machine { v: s.v.update(x, ((vx + nn) % 256) as u8), ..s }),
        Instruction::Ldr => Ok(Machine { v: s.v.update(x, vy), ..s }),
        Instruction::Or => Ok(Machine { v: s.v.update(x, vx | vy), ..s }),
        Instruction::And => Ok(Machine { v: s.v.update(x, vx & vy), ..s }),
        Instruction::Xor => Ok(Machine { v: s.v.update(x, vx ^ vy), ..s }),
        Instruction::Addreg => Ok(
            Machine { v: with_flag(s.v, x, ((vx + vy) % 256) as u8, vx + vy >= 256), ..s },
        ),
        Instruction::Subreg => Ok(
            Machine { v: with_flag(s.v, x, ((vx - vy + 256) % 256) as u8, vx >= vy), ..s },
        ),
        Instruction::Shiftr => Ok(Machine { v: with_flag(s.v, x, vx / 2, vx % 2 == 1), ..s }),
        Instruction::Sub => Ok(
            Machine { v: with_flag(s.v, x, ((vy - vx + 256) % 256) as u8, vy >= vx), ..s },
        ),
        Instruction::Shiftl => Ok(
            Machine { v: with_flag(s.v, x, ((vx * 2) % 256) as u8, vx >= 128), ..s },
        ),
        Instruction::Ldi => Ok(Machine { i: address_of(opcode), ..s }),
        Instruction::Jmpv0 => Ok(Machine { pc: (s.v[0] + address_of(opcode)) as u16, ..s }),
        Instruction::Rand => Ok(Machine { v: s.v.update(x, random & nn), ..s }),
        Instruction::Print => {
            let n = (opcode & 0x000Fu16) as int;
            if s.i + n > MEMORY_SIZE {
                Err(ChipError::MemoryOutOfBounds { address: s.pc })
            } else {
                let sprite = s.memory.subrange(s.i as int, s.i + n);
                Ok(
                    Machine {
                        screen: drawn(s.screen, vx, vy, sprite),
                        redraw: true,
                        v: s.v.update(FLAG as int, flag_value(collides(s.screen, vx, vy, sprite))),
                        ..s
                    },
                )
            }
        },
        Instruction::Ldvxdt => Ok(Machine { v: s.v.update(x, s.delay_timer), ..s }),
        Instruction::Ldvxkey => Ok(s),
        Instruction::Lddtvx => Ok(Machine { delay_timer: vx, ..s }),
        Instruction::Ldstvs => Ok(Machine { sound_timer: vx, ..s }),
        Instruction::Addivx => Ok(
            Machine {
                i: ((s.i + vx) % 65536) as u16,
                v: s.v.update(FLAG as int, flag_value(s.i + vx >= 65536)),
                ..s
            },
        ),
        Instruction::Ldfvx => Ok(Machine { i: (5 * vx) as u16, ..s }),
        Instruction::Bcd => if s.i + 2 >= MEMORY_SIZE {
            Err(ChipError::MemoryOutOfBounds { address: s.pc })
        } else {
            Ok(
                Machine {
                    memory: s.memory.update(s.i as int, vx / 100).update(
                        s.i + 1,
                        (vx / 10) % 10,
                    ).update(s.i + 2, vx % 10),
                    ..s
                },
            )
        },
        Instruction::Ldiv0vx => if s.i + x >= MEMORY_SIZE {
            Err(ChipError::MemoryOutOfBounds { address: s.pc })
        } else {
            Ok(
                Machine {
                    memory: Seq::new(
                        s.memory.len(),
                        |a: int|
                            if s.i <= a <= s.i + x {
                                s.v[a - s.i]
                            } else {
                                s.memory[a]
                            },
                    ),
                    ..s
                },
            )
        },
        Instruction::Ldv0vxi => if s.i + x >= MEMORY_SIZE {
            Err(ChipError::MemoryOutOfBounds { address: s.pc })
        } else {
            Ok(
                Machine {
                    v: Seq::new(
                        16,
                        |k: int|
                            if k <= x {
                                s.memory[s.i + k]
                            } else {
                                s.v[k]
                            },
                    ),
                    ..s
                },
            )
        },
    }
}

/// One instruction, as the dispatcher executes it: look up the handler, run
/// it, then step the program counter unless the instruction set it.
pub open spec fn step(s: Machine, opcode: u16, random: u8) -> Result<(Machine, Step), ChipError> {
    if s.pc >= MEMORY_SIZE {
        Err(ChipError::ProgramCounterOutOfBounds { address: s.pc })
    } else {
        match decode(normalized(opcode)) {
            None => Err(ChipError::UnknownOpcode { opcode, address: s.pc }),
            Some(ins) => match effect(ins, s, opcode, random) {
                Err(e) => Err(e),
                Ok(m) => Ok(
                    (
                        if sets_counter(ins) {
                            m
                        } else {
                            advanced(m)
                        },
                        if ins is Ldvxkey {
                            Step::AwaitKey(reg_x(opcode) as u8)
                        } else {
                            Step::Continue
                        },
                    ),
                ),
            },
        }
    }
}

/// A handler that cannot fail did what `effect` says.
pub open spec fn done(before: Machine, after: Machine, ins: Instruction, opcode: u16) -> bool {
    effect(ins, before, opcode, 0) == Ok::<Machine, ChipError>(after)
}

/// A handler that may fail did what `effect` says, and on an error left the
/// state unchanged.
pub open spec fn done_or_failed(
    r: Result<(), ChipError>,
    before: Machine,
    after: Machine,
    ins: Instruction,
    opcode: u16,
) -> bool {
    match effect(ins, before, opcode, 0) {
        Ok(m) => r == Ok::<(), ChipError>(()) && after == m,
        Err(e) => r == Err::<(), ChipError>(e) && after == before,
    }
}

/// Relies on rand's `thread_rng` and `Rng::gen_range`: a byte drawn at random.
/// Nothing is known of its value.
#[verifier::external_body]
fn random_byte() -> (r: u8) {
    let r: u16 = rand::Rng::gen_range(&mut rand::thread_rng(), 0u16, 256u16);
    r as u8
}

/// Decodes instruction words and executes them against a machine through a
/// dispatch table built once per instance.
pub struct OpcodeHandler {
    opcode_map: HashMap<Opcode, Instruction>,
}

impl OpcodeHandler {
    /// The table maps exactly the known keys to their handlers.
    pub closed spec fn wf(&self) -> bool {
        self.opcode_map@ == dispatch_table()
    }

    pub fn new() -> (r: OpcodeHandler)
        ensures
            r.wf(),
    {
        let mut map: HashMap<Opcode, Instruction> = HashMap::new();
        map.insert(0x00E0, Instruction::Clear);
        map.insert(0x00EE, Instruction::Ret);
        map.insert(0x1000, Instruction::Jp);
        map.insert(0x2000, Instruction::Call);
        map.insert(0x3000, Instruction::Se);
        map.insert(0x4000, Instruction::Sne);
        map.insert(0x5000, Instruction::Sre);
        map.insert(0x6000, Instruction::Ld);
        map.insert(0x7000, Instruction::Add);
        map.insert(0x8000, Instruction::Ldr);
        map.insert(0x8001, Instruction::Or);
        map.insert(0x8002, Instruction::And);
        map.insert(0x8003, Instruction::Xor);
        map.insert(0x8004, Instruction::Addreg);
        map.insert(0x8005, Instruction::Subreg);
        map.insert(0x8006, Instruction::Shiftr);
        map.insert(0x8007, Instruction::Sub);
        map.insert(0x800E, Instruction::Shiftl);
        map.insert(0x9000, Instruction::Srne);
        map.insert(0xA000, Instruction::Ldi);
        map.insert(0xB000, Instruction::Jmpv0);
        map.insert(0xC000, Instruction::Rand);
        map.insert(0xD000, Instruction::Print);
        map.insert(0xE09E, Instruction::Skp);
        map.insert(0xE0A1, Instruction::Sknp);
        map.insert(0xF007, Instruction::Ldvxdt);
        map.insert(0xF00A, Instruction::Ldvxkey);
        map.insert(0xF015, Instruction::Lddtvx);
        map.insert(0xF018, Instruction::Ldstvs);
        map.insert(0xF01E, Instruction::Addivx);
        map.insert(0xF029, Instruction::Ldfvx);
        map.insert(0xF033, Instruction::Bcd);
        map.insert(0xF055, Instruction::Ldiv0vx);
        map.insert(0xF065, Instruction::Ldv0vxi);
        assert(map@ =~= dispatch_table());
        OpcodeHandler { opcode_map: map }
    }
    /// The handler key of an instruction word.
    pub fn normalize(opcode: Opcode) -> (r: u16)
        ensures
            r == normalized(opcode),
    {
        let top = opcode & 0xF000;
        if top == 0x0000 {
            opcode & 0x00FF
        } else if top == 0x8000 {
            opcode & 0xF00F
        } else if top == 0xE000 || top == 0xF000 {
            opcode & 0xF0FF
        } else {
            top
        }
    }

    /// Executes one instruction word, drawing a random byte when the
    /// instruction is `CXNN`.
    pub fn next(&self, opcode: Opcode, chip: &mut Chip) -> (r: Result<Step, ChipError>)
        requires
            self.wf(),
            old(chip).wf(),
        ensures
            final(chip).wf(),
            exists|random: u8|
                outcome(r, old(chip)@, final(chip)@, #[trigger] step(old(chip)@, opcode, random)),
    {
        let random = if Self::normalize(opcode) == 0xC000 {
            random_byte()
        } else {
            0
        };
        self.execute(opcode, chip, random)
    }

    /// Executes one instruction word; `random` is the byte that `CXNN` masks.
    pub fn execute(&self, opcode: Opcode, chip: &mut Chip, random: u8) -> (r: Result<
        Step,
        ChipError,
    >)
        requires
            self.wf(),
            old(chip).wf(),
        ensures
            final(chip).wf(),
            outcome(r, old(chip)@, final(chip)@, step(old(chip)@, opcode, random)),
    {
        let pc = chip.program_counter.get();
        if pc as usize >= MEMORY_SIZE {
            return Err(ChipError::ProgramCounterOutOfBounds { address: pc });
        }
        let key = Self::normalize(opcode);
        let ins = match self.opcode_map.get(&key) {
            Some(ins) => *ins,
            None => {
                return Err(ChipError::UnknownOpcode { opcode, address: pc });
            },
        };
        let res: Result<(), ChipError> = match ins {
            Instruction::Clear => {
                Self::clear(opcode, chip);
                Ok(())
            },
            Instruction::Ret => Self::ret(opcode, chip),
            Instruction::Jp => {
                Self::jp(opcode, chip);
                Ok(())
            },
            Instruction::Call => Self::call(opcode, chip),
            Instruction::Se => {
                Self::se(opcode, chip);
                Ok(())
            },
            Instruction::Sne => {
                Self::sne(opcode, chip);
                Ok(())
            },
            Instruction::Sre => {
                Self::sre(opcode, chip);
                Ok(())
            },
            Instruction::Ld => {
                Self::ld(opcode, chip);
                Ok(())
            },
            Instruction::Add => {
                Self::add(opcode, chip);
                Ok(())
            },
            Instruction::Ldr => {
                Self::ldr(opcode, chip);
                Ok(())
            },
            Instruction::Or => {
                Self::or(opcode, chip);
                Ok(())
            },
            Instruction::And => {
                Self::and(opcode, chip);
                Ok(())
            },
            Instruction::Xor => {
                Self::xor(opcode, chip);
                Ok(())
            },
            Instruction::Addreg => {
                Self::addreg(opcode, chip);
                Ok(())
            },
            Instruction::Subreg => {
                Self::subreg(opcode, chip);
                Ok(())
            },
            Instruction::Shiftr => {
                Self::shiftr(opcode, chip);
                Ok(())
            },
            Instruction::Sub => {
                Self::sub(opcode, chip);
                Ok(())
            },
            Instruction::Shiftl => {
                Self::shiftl(opcode, chip);
                Ok(())
            },
            Instruction::Srne => {
                Self::srne(opcode, chip);
                Ok(())
            },
            Instruction::Ldi => {
                Self::ldi(opcode, chip);
                Ok(())
            },
            Instruction::Jmpv0 => {
                Self::jmpv0(opcode, chip);
                Ok(())
            },
            Instruction::Rand => {
                Self::rand_from(opcode, chip, random);
                Ok(())
            },
            Instruction::Print => Self::print(opcode, chip),
            Instruction::Skp => {
                Self::skp(opcode, chip);
                Ok(())
            },
            Instruction::Sknp => {
                Self::sknp(opcode, chip);
                Ok(())
            },
            Instruction::Ldvxdt => {
                Self::ldvxdt(opcode, chip);
                Ok(())
            },
            Instruction::Ldvxkey => Ok(()),
            Instruction::Lddtvx => {
                Self::lddtvx(opcode, chip);
                Ok(())
            },
            Instruction::Ldstvs => {
                Self::ldstvs(opcode, chip);
                Ok(())
            },
            Instruction::Addivx => {
                Self::addivx(opcode, chip);
                Ok(())
            },
            Instruction::Ldfvx => {
                Self::ldfvx(opcode, chip);
                Ok(())
            },
            Instruction::Bcd => Self::bcd(opcode, chip),
            Instruction::Ldiv0vx => Self::ldiv0vx(opcode, chip),
            Instruction::Ldv0vxi => Self::ldv0vxi(opcode, chip),
        };
        if let Err(e) = res {
            return Err(e);
        }
        if !ins.sets_counter() {
            chip.program_counter.increment();
        }
        if ins == Instruction::Ldvxkey {
            Ok(Step::AwaitKey(Registers::get_index(opcode, Position::X)))
        } else {
            Ok(Step::Continue)
        }
    }

    ///`00E0` - Clear the display
    pub fn clear(opcode: Opcode, chip: &mut Chip)
        ensures
            done(old(chip)@, final(chip)@, Instruction::Clear, opcode),
            final(chip).wf() == old(chip).wf(),
    {
        chip.screen.clear();
    }

    /// `00EE` - Return from a subroutine
    pub fn ret(opcode: Opcode, chip: &mut Chip) -> (r: Result<(), ChipError>)
        requires
            old(chip).wf(),
        ensures
            done_or_failed(r, old(chip)@, final(chip)@, Instruction::Ret, opcode),
            final(chip).wf(),
    {
        let sp = chip.stack_pointer;
        if sp == 0 {
            return Err(ChipError::StackUnderflow { address: chip.program_counter.get() });
        }
        chip.program_counter.set(chip.stack[sp as usize]);
        chip.stack_pointer = sp - 1;
        Ok(())
    }

    ///`1NNN` - Jump to the address `NNN`
    pub fn jp(opcode: Opcode, chip: &mut Chip)
        ensures
            done(old(chip)@, final(chip)@, Instruction::Jp, opcode),
            final(chip).wf() == old(chip).wf(),
    {
        chip.program_counter.set(opcode & 0x0FFF);
    }

    ///`2NNN` - Call subroutine at `NNN`
    pub fn call(opcode: Opcode, chip: &mut Chip) -> (r: Result<(), ChipError>)
        requires
            old(chip).wf(),
        ensures
            done_or_failed(r, old(chip)@, final(chip)@, Instruction::Call, opcode),
            final(chip).wf(),
    {
        let pc = chip.program_counter.get();
        if chip.stack_pointer >= 15 {
            return Err(ChipError::StackOverflow { address: pc });
        }
        chip.stack_pointer = chip.stack_pointer + 1;
        chip.stack[chip.stack_pointer as usize] = pc;
        chip.program_counter.set(opcode & 0x0FFF);
        Ok(())
    }

    /// Moves the program counter past the next instruction when `condition` holds.
    fn skip_if(chip: &mut Chip, condition: bool)
        requires
            old(chip).program_counter@ < MEMORY_SIZE,
        ensures
            final(chip)@ == (if condition {
                advanced(old(chip)@)
            } else {
                old(chip)@
            }),
            final(chip).wf() == old(chip).wf(),
    {
        if condition {
            chip.program_counter.increment();
        }
    }

    ///`3XNN` - Skip next instruction if V[`X`] equals `NN`
    pub fn se(opcode: Opcode, chip: &mut Chip)
        requires
            old(chip).program_counter@ < MEMORY_SIZE,
        ensures
            done(old(chip)@, final(chip)@, Instruction::Se, opcode),
            final(chip).wf() == old(chip).wf(),
    {
        let compare = (opcode & 0x00FF) as u8;
        let register = chip.v.get(Registers::get_index(opcode, Position::X));
        Self::skip_if(chip, register == compare);
    }

    ///`4XNN` - Skip next instruction if V[`X`] doesn't equal `NN`
    pub fn sne(opcode: Opcode, chip: &mut Chip)
        requires
            old(chip).program_counter@ < MEMORY_SIZE,
        ensures
            done(old(chip)@, final(chip)@, Instruction::Sne, opcode),
            final(chip).wf() == old(chip).wf(),
    {
        let register = chip.v.get(Registers::get_index(opcode, Position::X));
        let to_compare = (opcode & 0x00FF) as u8;
        Self::skip_if(chip, register != to_compare);
    }

    ///`5XY0` - Skip if V[`X`] equal V[`Y`]
    pub fn sre(opcode: Opcode, chip: &mut Chip)
        requires
            old(chip).program_counter@ < MEMORY_SIZE,
        ensures
            done(old(chip)@, final(chip)@, Instruction::Sre, opcode),
            final(chip).wf() == old(chip).wf(),
    {
        let first_register = chip.v.get(Registers::get_index(opcode, Position::X));
        let second_register = chip.v.get(Registers::get_index(opcode, Position::Y));
        Self::skip_if(chip, first_register == second_register);
    }

    ///`6XNN` - Set V[`X`] to `NN`
    pub fn ld(opcode: Opcode, chip: &mut Chip)
        ensures
            done(old(chip)@, final(chip)@, Instruction::Ld, opcode),
            final(chip).wf() == old(chip).wf(),
    {
        chip.v.set(Registers::get_index(opcode, Position::X), (opcode & 0x00FF) as u8);
    }

    ///`7XNN` - Add `NN` to V[`X`], carry flag not changed
    pub fn add(opcode: Opcode, chip: &mut Chip)
        ensures
            done(old(chip)@, final(chip)@, Instruction::Add, opcode),
            final(chip).wf() == old(chip).wf(),
    {
        let index = Registers::get_index(opcode, Position::X);
        chip.v.add_immediate(index, (opcode & 0x00FF) as u8);
    }

    ///`8XY0` Set V[`X`] to the value of V[`Y`]
    pub fn ldr(opcode: Opcode, chip: &mut Chip)
        ensures
            done(old(chip)@, final(chip)@, Instruction::Ldr, opcode),
            final(chip).wf() == old(chip).wf(),
    {
        let vy = chip.v.get(Registers::get_index(opcode, Position::Y));
        chip.v.set(Registers::get_index(opcode, Position::X), vy);
    }

    ///`8XY1` - Set V[`X`] to the result of bitwise OR with V[`Y`]
    pub fn or(opcode: Opcode, chip: &mut Chip)
        ensures
            done(old(chip)@, final(chip)@, Instruction::Or, opcode),
            final(chip).wf() == old(chip).wf(),
    {
        let x = Registers::get_index(opcode, Position::X);
        let vy = chip.v.get(Registers::get_index(opcode, Position::Y));
        let vx = chip.v.get(x);
        chip.v.set(x, vx | vy);
    }

    ///`8XY2` - Set V[`X`] to the result of bitwise AND with V[`Y`]
    pub fn and(opcode: Opcode, chip: &mut Chip)
        ensures
            done(old(chip)@, final(chip)@, Instruction::And, opcode),
            final(chip).wf() == old(chip).wf(),
    {
        let x = Registers::get_index(opcode, Position::X);
        let vy = chip.v.get(Registers::get_index(opcode, Position::Y));
        let vx = chip.v.get(x);
        chip.v.set(x, vx & vy);
    }

    ///`8XY3` - Set V[`X`] to the result of bitwise XOR with V[`Y`]
    pub fn xor(opcode: Opcode, chip: &mut Chip)
        ensures
            done(old(chip)@, final(chip)@, Instruction::Xor, opcode),
            final(chip).wf() == old(chip).wf(),
    {
        let x = Registers::get_index(opcode, Position::X);
        let vy = chip.v.get(Registers::get_index(opcode, Position::Y));
        let vx = chip.v.get(x);
        chip.v.set(x, vx ^ vy);
    }

    ///`8XY4` - Add V[`Y`] to V[`X`]; VF is 1 on an unsigned overflow, else 0
    pub fn addreg(opcode: Opcode, chip: &mut Chip)
        ensures
            done(old(chip)@, final(chip)@, Instruction::Addreg, opcode),
            final(chip).wf() == old(chip).wf(),
            ({
                let a = old(chip).v@[reg_x(opcode)];
                let b = old(chip).v@[reg_y(opcode)];
                &&& reg_x(opcode) != FLAG ==> final(chip).v@[reg_x(opcode)] == (a + b) % 256
                &&& final(chip).v@[FLAG as int] == if a + b >= 256 {
                    1u8
                } else {
                    0u8
                }
            }),
    {
        let x = Registers::get_index(opcode, Position::X);
        let left = chip.v.get(x);
        let right = chip.v.get(Registers::get_index(opcode, Position::Y));
        let sum: u16 = left as u16 + right as u16;
        chip.v.set(x, (sum % 256) as u8);
        chip.v.set_carry(sum >= 256);
    }

    ///`8XY5` - Subtract V[`Y`] from V[`X`], modulo 256; VF is 1 when there is
    /// no borrow (V[`X`] >= V[`Y`]), else 0
    pub fn subreg(opcode: Opcode, chip: &mut Chip)
        ensures
            done(old(chip)@, final(chip)@, Instruction::Subreg, opcode),
            final(chip).wf() == old(chip).wf(),
            ({
                let a = old(chip).v@[reg_x(opcode)];
                let b = old(chip).v@[reg_y(opcode)];
                &&& reg_x(opcode) != FLAG ==> final(chip).v@[reg_x(opcode)] == (a - b + 256) % 256
                &&& final(chip).v@[FLAG as int] == if a >= b {
                    1u8
                } else {
                    0u8
                }
            }),
    {
        let x = Registers::get_index(opcode, Position::X);
        let vx = chip.v.get(x);
        let vy = chip.v.get(Registers::get_index(opcode, Position::Y));
        let result = ((vx as u16 + 256 - vy as u16) % 256) as u8;
        chip.v.set(x, result);
        chip.v.set_carry(vx >= vy);
    }

    ///`8XY6` - Shift V[`X`] right by 1; VF is the bit shifted out
    pub fn shiftr(opcode: Opcode, chip: &mut Chip)
        ensures
            done(old(chip)@, final(chip)@, Instruction::Shiftr, opcode),
            final(chip).wf() == old(chip).wf(),
    {
        let x = Registers::get_index(opcode, Position::X);
        let vx = chip.v.get(x);
        chip.v.set(x, vx / 2);
        chip.v.set_carry(vx % 2 == 1);
    }

    ///`8XY7` - Sets V[`X`] to V[`Y`] minus V[`X`], modulo 256; VF is 1 when
    /// there is no borrow (V[`Y`] >= V[`X`]), else 0
    pub fn sub(opcode: Opcode, chip: &mut Chip)
        ensures
            done(old(chip)@, final(chip)@, Instruction::Sub, opcode),
            final(chip).wf() == old(chip).wf(),
            ({
                let a = old(chip).v@[reg_x(opcode)];
                let b = old(chip).v@[reg_y(opcode)];
                &&& reg_x(opcode) != FLAG ==> final(chip).v@[reg_x(opcode)] == (b - a + 256) % 256
                &&& final(chip).v@[FLAG as int] == if b >= a {
                    1u8
                } else {
                    0u8
                }
            }),
    {
        let x = Registers::get_index(opcode, Position::X);
        let vx = chip.v.get(x);
        let vy = chip.v.get(Registers::get_index(opcode, Position::Y));
        let result = ((vy as u16 + 256 - vx as u16) % 256) as u8;
        chip.v.set(x, result);
        chip.v.set_carry(vy >= vx);
    }

    ///`8XYE` - Shift V[`X`] left by 1; VF is the bit shifted out
    pub fn shiftl(opcode: Opcode, chip: &mut Chip)
        ensures
            done(old(chip)@, final(chip)@, Instruction::Shiftl, opcode),
            final(chip).wf() == old(chip).wf(),
    {
        let index = Registers::get_index(opcode, Position::X);
        let vx = chip.v.get(index);
        chip.v.set(index, ((vx as u16 * 2) % 256) as u8);
        chip.v.set_carry(vx >= 128);
    }

    ///`9XY0` - Skips the next instruction if V[`X`] does not equal V[`Y`]
    pub fn srne(opcode: Opcode, chip: &mut Chip)
        requires
            old(chip).program_counter@ < MEMORY_SIZE,
        ensures
            done(old(chip)@, final(chip)@, Instruction::Srne, opcode),
            final(chip).wf() == old(chip).wf(),
    {
        let vx = chip.v.get(Registers::get_index(opcode, Position::X));
        let vy = chip.v.get(Registers::get_index(opcode, Position::Y));
        Self::skip_if(chip, vx != vy);
    }

    ///`ANNN` - Set I to address NNN
    pub fn ldi(opcode: Opcode, chip: &mut Chip)
        ensures
            done(old(chip)@, final(chip)@, Instruction::Ldi, opcode),
            final(chip).wf() == old(chip).wf(),
    {
        chip.i = opcode & 0x0FFF;
    }

    ///`BNNN` - Jump to the address NNN plus V[0]
    pub fn jmpv0(opcode: Opcode, chip: &mut Chip)
        ensures
            done(old(chip)@, final(chip)@, Instruction::Jmpv0, opcode),
            final(chip).wf() == old(chip).wf(),
    {
        let nnn = opcode & 0x0FFF;
        assert(opcode & 0x0FFFu16 <= 0x0FFFu16) by (bit_vector);
        let address = chip.v.get(0) as u16 + nnn;
        chip.program_counter.set(address);
    }

    ///`CXNN` - Set V[`X`] equal `random_number & NN`, the number drawn at random
    pub fn rand(opcode: Opcode, chip: &mut Chip)
        ensures
            exists|random: u8|
                #[trigger] effect(Instruction::Rand, old(chip)@, opcode, random) == Ok::<
                    Machine,
                    ChipError,
                >(final(chip)@),
            final(chip).wf() == old(chip).wf(),
    {
        let random = random_byte();
        Self::rand_from(opcode, chip, random);
    }

    ///`CXNN` - Set V[`X`] equal `random & NN`, for a given random byte
    pub fn rand_from(opcode: Opcode, chip: &mut Chip, random: u8)
        ensures
            effect(Instruction::Rand, old(chip)@, opcode, random) == Ok::<Machine, ChipError>(
                final(chip)@,
            ),
            final(chip).wf() == old(chip).wf(),
    {
        let nn = (opcode & 0x00FF) as u8;
        chip.v.set(Registers::get_index(opcode, Position::X), random & nn);
    }

    ///`DXYN` - Display `N`-byte sprite, starting at I, at (V[`X`], V[`Y`]), set V[F] if collision occured
    pub fn print(opcode: Opcode, chip: &mut Chip) -> (r: Result<(), ChipError>)
        ensures
            done_or_failed(r, old(chip)@, final(chip)@, Instruction::Print, opcode),
            final(chip).wf() == old(chip).wf(),
    {
        let x = chip.v.get(Registers::get_index(opcode, Position::X));
        let y = chip.v.get(Registers::get_index(opcode, Position::Y));
        let n = (opcode & 0x000F) as usize;
        let start = chip.i as usize;
        if start + n > MEMORY_SIZE {
            return Err(ChipError::MemoryOutOfBounds { address: chip.program_counter.get() });
        }
        let mut sprite: Vec<u8> = Vec::new();
        let mut k: usize = 0;
        while k < n
            invariant
                k <= n,
                start + n <= MEMORY_SIZE,
                sprite@ == chip.memory@.subrange(start as int, start + k),
            decreases n - k,
        {
            sprite.push(chip.memory[start + k]);
            k = k + 1;
        }
        let collided = chip.screen.draw(x, y, sprite.as_slice());
        chip.v.set_carry(collided);
        Ok(())
    }

    ///`EX9E` - Skip the next instruction if the V[`X`] key is pressed.
    pub fn skp(opcode: Opcode, chip: &mut Chip)
        requires
            old(chip).program_counter@ < MEMORY_SIZE,
        ensures
            done(old(chip)@, final(chip)@, Instruction::Skp, opcode),
            final(chip).wf() == old(chip).wf(),
    {
        let x = chip.v.get(Registers::get_index(opcode, Position::X));
        let pressed = chip.keyboard.is_pressed(x);
        Self::skip_if(chip, pressed);
    }

    ///`EXA1` - Skip the next instruction if the V[`X`] key is not pressed.
    pub fn sknp(opcode: Opcode, chip: &mut Chip)
        requires
            old(chip).program_counter@ < MEMORY_SIZE,
        ensures
            done(old(chip)@, final(chip)@, Instruction::Sknp, opcode),
            final(chip).wf() == old(chip).wf(),
    {
        let x = chip.v.get(Registers::get_index(opcode, Position::X));
        let pressed = chip.keyboard.is_pressed(x);
        Self::skip_if(chip, !pressed);
    }

    ///`FX07` - Set V[`X`] equal to delay timer.
    pub fn ldvxdt(opcode: Opcode, chip: &mut Chip)
        ensures
            done(old(chip)@, final(chip)@, Instruction::Ldvxdt, opcode),
            final(chip).wf() == old(chip).wf(),
    {
        let delay = chip.delay_timer;
        chip.v.set(Registers::get_index(opcode, Position::X), delay);
    }

    ///`FX0A` - Store the key that ended the wait in V[`X`]. The dispatcher
    /// asks for the key with `Step::AwaitKey`.
    pub fn ldvxkey(opcode: Opcode, chip: &mut Chip, key: u8)
        ensures
            final(chip)@ == (Machine { v: old(chip)@.v.update(reg_x(opcode), key), ..old(chip)@ }),
            final(chip).wf() == old(chip).wf(),
    {
        chip.v.set(Registers::get_index(opcode, Position::X), key);
    }

    ///`FX15` - Set delay timer equal to V[`X`]
    pub fn lddtvx(opcode: Opcode, chip: &mut Chip)
        ensures
            done(old(chip)@, final(chip)@, Instruction::Lddtvx, opcode),
            final(chip).wf() == old(chip).wf(),
    {
        chip.delay_timer = chip.v.get(Registers::get_index(opcode, Position::X));
    }

    ///`FX18` - Set sound timer equal to V[`X`]
    pub fn ldstvs(opcode: Opcode, chip: &mut Chip)
        ensures
            done(old(chip)@, final(chip)@, Instruction::Ldstvs, opcode),
            final(chip).wf() == old(chip).wf(),
    {
        chip.sound_timer = chip.v.get(Registers::get_index(opcode, Position::X));
    }

    ///`FX1E` - Set I equal to V[`X`] + I, modulo 65536; VF is 1 on an overflow, else 0
    pub fn addivx(opcode: Opcode, chip: &mut Chip)
        ensures
            done(old(chip)@, final(chip)@, Instruction::Addivx, opcode),
            final(chip).wf() == old(chip).wf(),
    {
        let to_add = chip.v.get(Registers::get_index(opcode, Position::X)) as u32;
        let sum: u32 = chip.i as u32 + to_add;
        chip.i = (sum % 65536) as u16;
        chip.v.set_carry(sum >= 65536);
    }

    ///`FX29` - Set I equal to sprite location for digit V[`X`]
    pub fn ldfvx(opcode: Opcode, chip: &mut Chip)
        ensures
            done(old(chip)@, final(chip)@, Instruction::Ldfvx, opcode),
            final(chip).wf() == old(chip).wf(),
    {
        let digit = chip.v.get(Registers::get_index(opcode, Position::X)) as u16;
        chip.i = 5 * digit;
    }

    ///`FX33` - Store BCD representation of V[`X`] to I, I+1, I+2
    pub fn bcd(opcode: Opcode, chip: &mut Chip) -> (r: Result<(), ChipError>)
        ensures
            done_or_failed(r, old(chip)@, final(chip)@, Instruction::Bcd, opcode),
            final(chip).wf() == old(chip).wf(),
    {
        let vx_val = chip.v.get(Registers::get_index(opcode, Position::X));
        let i = chip.i as usize;
        if i + 2 >= MEMORY_SIZE {
            return Err(ChipError::MemoryOutOfBounds { address: chip.program_counter.get() });
        }
        let ones = vx_val % 10;
        let tens: u8 = (vx_val / 10) % 10;
        let hundreds: u8 = vx_val / 100;
        chip.memory[i] = hundreds;
        chip.memory[i + 1] = tens;
        chip.memory[i + 2] = ones;
        Ok(())
    }

    ///`FX55` - Store registers V0 through V[`X`] in memory starting at location I.
    pub fn ldiv0vx(opcode: Opcode, chip: &mut Chip) -> (r: Result<(), ChipError>)
        ensures
            done_or_failed(r, old(chip)@, final(chip)@, Instruction::Ldiv0vx, opcode),
            final(chip).wf() == old(chip).wf(),
    {
        let x = Registers::get_index(opcode, Position::X);
        let start = chip.i as usize;
        if start + x as usize >= MEMORY_SIZE {
            return Err(ChipError::MemoryOutOfBounds { address: chip.program_counter.get() });
        }
        let mut idx: u8 = 0;
        while idx <= x
            invariant
                x < 16,
                idx <= x + 1,
                start == old(chip).i,
                start + x < MEMORY_SIZE,
                chip@ == (Machine { memory: chip@.memory, ..old(chip)@ }),
                chip.stack_pointer == old(chip).stack_pointer,
                chip.memory@ =~= Seq::new(
                    4096,
                    |a: int|
                        if start <= a < start + idx {
                            old(chip).v@[a - start]
                        } else {
                            old(chip).memory@[a]
                        },
                ),
            decreases x + 1 - idx,
        {
            let value = chip.v.get(idx);
            chip.memory[start + idx as usize] = value;
            idx = idx + 1;
        }
        assert(chip.memory@ =~= Seq::new(
            old(chip).memory@.len(),
            |a: int|
                if old(chip).i <= a <= old(chip).i + reg_x(opcode) {
                    old(chip).v@[a - old(chip).i]
                } else {
                    old(chip).memory@[a]
                },
        ));
        Ok(())
    }

    ///`FX65` - Read registers V0 through V[`X`] from memory starting at location I.
    pub fn ldv0vxi(opcode: Opcode, chip: &mut Chip) -> (r: Result<(), ChipError>)
        ensures
            done_or_failed(r, old(chip)@, final(chip)@, Instruction::Ldv0vxi, opcode),
            final(chip).wf() == old(chip).wf(),
    {
        let x = Registers::get_index(opcode, Position::X);
        let start = chip.i as usize;
        if start + x as usize >= MEMORY_SIZE {
            return Err(ChipError::MemoryOutOfBounds { address: chip.program_counter.get() });
        }
        let mut idx: u8 = 0;
        while idx <= x
            invariant
                x < 16,
                idx <= x + 1,
                start == old(chip).i,
                start + x < MEMORY_SIZE,
                chip@ == (Machine { v: chip@.v, ..old(chip)@ }),
                chip.stack_pointer == old(chip).stack_pointer,
                chip.v@ =~= Seq::new(
                    16,
                    |k: int|
                        if k < idx {
                            old(chip).memory@[start + k]
                        } else {
                            old(chip).v@[k]
                        },
                ),
            decreases x + 1 - idx,
        {
            let value = chip.memory[start + idx as usize];
            chip.v.set(idx, value);
            idx = idx + 1;
        }
        assert(chip.v@ =~= Seq::new(
            16,
            |k: int|
                if k <= reg_x(opcode) {
                    old(chip).memory@[old(chip).i + k]
                } else {
                    old(chip).v@[k]
                },
        ));
        Ok(())
    }
}

impl Instruction {
    /// Whether the instruction sets the program counter itself.
    pub fn sets_counter(&self) -> (r: bool)
        ensures
            r == sets_counter(*self),
    {
        matches!(self, Instruction::Jp | Instruction::Call | Instruction::Ret | Instruction::Jmpv0)
    }
}

/// `8XY4` as the dispatcher runs it: for all register values `a` and `b`,
/// V[`X`] becomes `(a + b) mod 256` and VF is 1 exactly when `a + b >= 256`
/// (for `X` other than F, whose sum the flag overwrites); the program
/// counter moves on by 2.
pub proof fn lemma_add_with_carry(s: Machine, opcode: u16, random: u8)
    requires
        normalized(opcode) == 0x8004u16,
        s.pc < MEMORY_SIZE,
        s.v.len() == 16,
    ensures
        ({
            let a = s.v[reg_x(opcode)];
            let b = s.v[reg_y(opcode)];
            let m = step(s, opcode, random)->Ok_0.0;
            &&& step(s, opcode, random) is Ok
            &&& reg_x(opcode) != FLAG ==> m.v[reg_x(opcode)] == (a + b) % 256
            &&& m.v[FLAG as int] == if a + b >= 256 {
                1u8
            } else {
                0u8
            }
            &&& m.pc == s.pc + 2
        }),
{
    lemma_index_bounds(opcode);
    assert(decode(normalized(opcode)) == Some(Instruction::Addreg));
}

/// `8XY5` and `8XY7` follow one borrow convention: VF is 1 when no borrow
/// occurs. Subtracting `b` from `a` with `8XY5` (V[`X`] = `a`, V[`Y`] = `b`)
/// and with `8XY7` (V[`X`] = `b`, V[`Y`] = `a`) gives the same difference
/// `(a - b) mod 256` and the same flag.
pub proof fn lemma_borrow_convention(s: Machine, opcode: u16, a: u8, b: u8)
    requires
        s.v.len() == 16,
        reg_x(opcode) != reg_y(opcode),
        reg_x(opcode) != FLAG,
        reg_y(opcode) != FLAG,
    ensures
        ({
            let x = reg_x(opcode);
            let y = reg_y(opcode);
            let forward = effect(
                Instruction::Subreg,
                Machine { v: s.v.update(x, a).update(y, b), ..s },
                opcode,
                0,
            )->Ok_0;
            let reverse = effect(
                Instruction::Sub,
                Machine { v: s.v.update(x, b).update(y, a), ..s },
                opcode,
                0,
            )->Ok_0;
            &&& forward.v[x] == (a - b + 256) % 256
            &&& forward.v[FLAG as int] == flag_value(a >= b)
            &&& reverse.v[x] == forward.v[x]
            &&& reverse.v[FLAG as int] == forward.v[FLAG as int]
        }),
{
    lemma_index_bounds(opcode);
    let x = reg_x(opcode);
    let y = reg_y(opcode);
    let s1 = Machine { v: s.v.update(x, a).update(y, b), ..s };
    let s2 = Machine { v: s.v.update(x, b).update(y, a), ..s };
    assert(s1.v[x] == a && s1.v[y] == b);
    assert(s2.v[x] == b && s2.v[y] == a);
    let d = ((a - b + 256) % 256) as u8;
    assert(effect(Instruction::Subreg, s1, opcode, 0) == Ok::<Machine, ChipError>(
        Machine { v: with_flag(s1.v, x, d, a >= b), ..s1 },
    ));
    assert(effect(Instruction::Sub, s2, opcode, 0) == Ok::<Machine, ChipError>(
        Machine { v: with_flag(s2.v, x, d, a >= b), ..s2 },
    ));
}

/// Subtracting with `8XY5` and adding back with `8XY4` restores V[`X`]; the
/// carry of the addition is 1 exactly when the subtraction borrowed, so the
/// two flags are complementary.
pub proof fn lemma_subtract_then_add(s: Machine, opcode: u16)
    requires
        s.v.len() == 16,
        reg_x(opcode) != reg_y(opcode),
        reg_x(opcode) != FLAG,
        reg_y(opcode) != FLAG,
    ensures
        ({
            let x = reg_x(opcode);
            let after_sub = effect(Instruction::Subreg, s, opcode, 0)->Ok_0;
            let after_add = effect(Instruction::Addreg, after_sub, opcode, 0)->Ok_0;
            &&& after_add.v[x] == s.v[x]
            &&& after_sub.v[FLAG as int] + after_add.v[FLAG as int] == 1
        }),
{
    lemma_index_bounds(opcode);
    let x = reg_x(opcode);
    let y = reg_y(opcode);
    let a = s.v[x];
    let b = s.v[y];
    let d = ((a - b + 256) % 256) as u8;
    let after_sub = Machine { v: with_flag(s.v, x, d, a >= b), ..s };
    assert(effect(Instruction::Subreg, s, opcode, 0) == Ok::<Machine, ChipError>(after_sub));
    assert(after_sub.v[y] == b && after_sub.v[x] == d);
    let e = ((d + b) % 256) as u8;
    lemma_wrap_round_trip(a, b);
    assert(effect(Instruction::Addreg, after_sub, opcode, 0) == Ok::<Machine, ChipError>(
        Machine { v: with_flag(after_sub.v, x, e, d + b >= 256), ..after_sub },
    ));
}

/// Byte arithmetic: `((a - b) mod 256 + b) mod 256 == a`, and the sum
/// overflows exactly when the difference borrowed.
proof fn lemma_wrap_round_trip(a: u8, b: u8)
    ensures
        ((((a - b + 256) % 256) as u8 + b) % 256) as u8 == a,
        (((a - b + 256) % 256) as u8 + b >= 256) == (a < b),
{
    if a >= b {
        lemma_small_mod((a - b) as nat, 256);
        assert((a - b + 256) % 256 == a - b);
        lemma_small_mod(a as nat, 256);
    } else {
        lemma_small_mod((a - b + 256) as nat, 256);
        assert((a + 256) % 256 == a);
    }
}

/// Every instruction that does not set the program counter itself moves it
/// on by exactly 2; a compare-and-skip instruction whose condition holds
/// moves it on by exactly 4.
pub proof fn lemma_counter_advance(s: Machine, opcode: u16, random: u8)
    requires
        step(s, opcode, random) is Ok,
        s.v.len() == 16,
    ensures
        ({
            let ins = decode(normalized(opcode))->Some_0;
            let m = step(s, opcode, random)->Ok_0.0;
            &&& decode(normalized(opcode)) is Some
            &&& !sets_counter(ins) && !is_skip(ins) ==> m.pc == s.pc + 2
            &&& is_skip(ins) ==> m.pc == s.pc + if skip_condition(ins, s, opcode) {
                4int
            } else {
                2int
            }
        }),
{
}

/// A call followed by a return, both run by the dispatcher, brings the
/// program counter and the stack pointer back to where they were: the
/// return lands on the call instruction's own address, as the call saved it.
pub proof fn lemma_call_then_return(s: Machine, call: u16, random: u8)
    requires
        call & 0xF000u16 == 0x2000u16,
        s.pc < MEMORY_SIZE,
        s.sp < 15,
        s.stack.len() == 16,
    ensures
        ({
            let called = step(s, call, random)->Ok_0.0;
            let returned = step(called, 0x00EEu16, random)->Ok_0.0;
            &&& step(s, call, random) is Ok
            &&& called.pc == address_of(call)
            &&& called.sp == s.sp + 1
            &&& called.stack[s.sp + 1] == s.pc
            &&& step(called, 0x00EEu16, random) is Ok
            &&& returned.pc == s.pc
            &&& returned.sp == s.sp
        }),
{
    assert(normalized(call) == 0x2000u16);
    assert(address_of(call) < MEMORY_SIZE) by {
        assert(call & 0x0FFFu16 <= 0x0FFFu16) by (bit_vector);
    }
    assert(normalized(0x00EEu16) == 0x00EEu16) by (bit_vector);
}

} // verus!
