//! The machine as a mathematical value, and each operation as a function on
//! such values.
//!
//! [`State`] holds what the machine holds: memory, the registers V0..VF, the
//! index register I, the program counter, the call stack, the display, the two
//! timers and the keypad. The functions on it say what each operation of the
//! interpreter does; the executable machine is proved to follow them.
//!
//! Choices that the instruction set leaves open are fixed here:
//! - the display has 32 rows;
//! - the shift instructions shift Vx in place;
//! - an arithmetic instruction whose target is VF leaves the result, not the
//!   flag, in VF;
//! - I and the program counter are 16 bits wide, and adding Vx to I wraps at
//!   16 bits;
//! - an instruction that needs memory past the last byte, or tests a key with
//!   a number above 15, fails and changes nothing.

use vstd::prelude::*;
use crate::display::{blank_display, blit, collides, GFX_SIZE};
use crate::error::Chip8Error;
use crate::font::{font, FONT_SIZE, GLYPH_SIZE};
use crate::instruction::{decode, Instruction};

verus! {

/// Bytes of memory.
pub const MEMORY_SIZE: usize = 4096;

/// General-purpose registers.
pub const NUM_REGISTERS: usize = 16;

/// Slots of the call stack.
pub const STACK_SIZE: usize = 16;

/// Keys of the keypad.
pub const NUM_KEYS: usize = 16;

/// Where programs are loaded and where execution starts.
pub const MEMORY_START: usize = 0x200;

/// Bytes of one instruction.
pub const OPCODE_SIZE: u16 = 2;

/// The register that receives carry, borrow and collision flags.
pub const FLAG_REG: u8 = 0xF;

/// The largest program that fits between the load address and the end of
/// memory.
pub const MAX_PROGRAM_SIZE: usize = MEMORY_SIZE - MEMORY_START;

/// Everything the machine holds between two operations.
#[verifier::ext_equal]
pub struct State {
    /// The 4096 bytes of memory.
    pub memory: Seq<u8>,
    /// The registers V0..VF.
    pub v: Seq<u8>,
    /// The index register I.
    pub i: u16,
    /// The program counter.
    pub pc: u16,
    /// The sixteen slots of the call stack; those below `sp` are in use.
    pub stack: Seq<u16>,
    /// The number of return addresses on the call stack.
    pub sp: u8,
    /// The display, row by row.
    pub gfx: Seq<bool>,
    /// The delay timer.
    pub delay_timer: u8,
    /// The sound timer.
    pub sound_timer: u8,
    /// For each key, whether it is held.
    pub keys: Seq<bool>,
    /// The key that was pressed last, until the next cycle has run.
    pub key_pressed: Option<u8>,
}

/// The hundreds digit of a byte.
pub open spec fn bcd_hundreds(value: u8) -> u8 {
    (value / 100) as u8
}

/// The tens digit of a byte.
pub open spec fn bcd_tens(value: u8) -> u8 {
    ((value / 10) % 10) as u8
}

/// The ones digit of a byte.
pub open spec fn bcd_ones(value: u8) -> u8 {
    (value % 10) as u8
}

/// The big-endian word made of two bytes.
pub open spec fn word_of(high: u8, low: u8) -> u16 {
    (high * 256 + low) as u16
}

/// 1 for true, 0 for false: how a flag is stored in VF.
pub open spec fn flag(condition: bool) -> u8 {
    if condition {
        1
    } else {
        0
    }
}

impl State {
    /// The shape that every state of the machine has: the sizes of its parts,
    /// a stack pointer of at most 16, and a pressed key that exists.
    pub open spec fn wf(self) -> bool {
        &&& self.memory.len() == MEMORY_SIZE
        &&& self.v.len() == NUM_REGISTERS
        &&& self.stack.len() == STACK_SIZE
        &&& self.sp <= STACK_SIZE
        &&& self.gfx.len() == GFX_SIZE
        &&& self.keys.len() == NUM_KEYS
        &&& (self.key_pressed matches Some(key) ==> key < NUM_KEYS)
    }

    /// A machine with everything zero and the program counter at the load
    /// address. It has no font yet.
    pub open spec fn blank() -> State {
        State {
            memory: Seq::new(MEMORY_SIZE as nat, |a: int| 0u8),
            v: Seq::new(NUM_REGISTERS as nat, |r: int| 0u8),
            i: 0,
            pc: MEMORY_START as u16,
            stack: Seq::new(STACK_SIZE as nat, |s: int| 0u16),
            sp: 0,
            gfx: blank_display(),
            delay_timer: 0,
            sound_timer: 0,
            keys: Seq::new(NUM_KEYS as nat, |k: int| false),
            key_pressed: None,
        }
    }

    /// A machine that was reset: blank, with the font at the start of memory.
    pub open spec fn initial() -> State {
        State {
            memory: Seq::new(
                MEMORY_SIZE as nat,
                |a: int|
                    if a < FONT_SIZE {
                        font()[a]
                    } else {
                        0u8
                    },
            ),
            ..State::blank()
        }
    }

    /// Memory with `program` copied to the load address.
    pub open spec fn with_program(self, program: Seq<u8>) -> State {
        State {
            memory: Seq::new(
                self.memory.len(),
                |a: int|
                    if MEMORY_START <= a < MEMORY_START + program.len() {
                        program[a - MEMORY_START]
                    } else {
                        self.memory[a]
                    },
            ),
            ..self
        }
    }

    /// Loading a program: it is copied whole, or refused when it is longer
    /// than the memory from the load address on.
    pub open spec fn load(self, program: Seq<u8>) -> Result<State, Chip8Error> {
        if program.len() > MAX_PROGRAM_SIZE {
            Err(Chip8Error::InvalidProgramSize(program.len() as usize))
        } else {
            Ok(self.with_program(program))
        }
    }

    /// One tick of the 60 Hz clock: each timer that is not zero goes down by
    /// one.
    pub open spec fn tick(self) -> State {
        State {
            delay_timer: if self.delay_timer == 0 {
                0u8
            } else {
                (self.delay_timer - 1) as u8
            },
            sound_timer: if self.sound_timer == 0 {
                0u8
            } else {
                (self.sound_timer - 1) as u8
            },
            ..self
        }
    }

    /// A key goes down or up. Each report of a key going down is remembered
    /// as the last key press, in place of an earlier one.
    pub open spec fn set_key(self, key: int, pressed: bool) -> State {
        State {
            keys: self.keys.update(key, pressed),
            key_pressed: if pressed {
                Some(key as u8)
            } else {
                self.key_pressed
            },
            ..self
        }
    }

    /// The value of register Vx.
    pub open spec fn reg(self, x: u8) -> u8 {
        self.v[x as int]
    }

    /// Whether a two-byte instruction lies at the program counter.
    pub open spec fn pc_in_bounds(self) -> bool {
        self.pc + 1 < MEMORY_SIZE
    }

    /// The word at the program counter.
    pub open spec fn opcode(self) -> u16 {
        word_of(self.memory[self.pc as int], self.memory[self.pc + 1])
    }

    /// Fetching: the word at the program counter, if it lies within memory.
    pub open spec fn fetch(self) -> Result<u16, Chip8Error> {
        if self.pc_in_bounds() {
            Ok(self.opcode())
        } else {
            Err(Chip8Error::ProgramCounterOutOfBounds(self.pc))
        }
    }

    /// The program counter moves to the next instruction.
    pub open spec fn advance(self) -> State {
        State { pc: (self.pc + OPCODE_SIZE) as u16, ..self }
    }

    /// The program counter moves past the next instruction if `condition`
    /// holds, and to it otherwise.
    pub open spec fn skip_if(self, condition: bool) -> State {
        if condition {
            State { pc: (self.pc + 2 * OPCODE_SIZE) as u16, ..self }
        } else {
            self.advance()
        }
    }

    /// Vx becomes `value`.
    pub open spec fn with_reg(self, x: u8, value: u8) -> State {
        State { v: self.v.update(x as int, value), ..self }
    }

    /// VF becomes the flag and then Vx the value, so that with x = F the
    /// value stays.
    pub open spec fn with_flagged(self, x: u8, value: u8, condition: bool) -> State {
        State {
            v: self.v.update(FLAG_REG as int, flag(condition)).update(x as int, value),
            ..self
        }
    }

    /// The `rows` bytes at I, read as a sprite.
    pub open spec fn sprite(self, rows: u8) -> Seq<u8> {
        Seq::new(rows as nat, |r: int| self.memory[self.i + r])
    }

    /// Memory with V0..Vx stored from I on.
    pub open spec fn with_registers_stored(self, x: u8) -> State {
        State {
            memory: Seq::new(
                self.memory.len(),
                |a: int|
                    if self.i <= a <= self.i + x {
                        self.v[a - self.i]
                    } else {
                        self.memory[a]
                    },
            ),
            ..self
        }
    }

    /// V0..Vx read from memory at I.
    pub open spec fn with_registers_loaded(self, x: u8) -> State {
        State {
            v: Seq::new(
                self.v.len(),
                |r: int|
                    if r <= x {
                        self.memory[self.i + r]
                    } else {
                        self.v[r]
                    },
            ),
            ..self
        }
    }

    /// Memory with the decimal digits of `value` at I, I+1 and I+2.
    pub open spec fn with_bcd_stored(self, value: u8) -> State {
        State {
            memory: self.memory.update(self.i as int, bcd_hundreds(value)).update(
                self.i + 1,
                bcd_tens(value),
            ).update(self.i + 2, bcd_ones(value)),
            ..self
        }
    }

    /// A return address is pushed and execution continues at `target`.
    pub open spec fn call(self, target: u16) -> Result<State, Chip8Error> {
        if self.sp >= STACK_SIZE {
            Err(Chip8Error::StackOverflow)
        } else {
            Ok(
                State {
                    pc: target,
                    stack: self.stack.update(self.sp as int, (self.pc + OPCODE_SIZE) as u16),
                    sp: (self.sp + 1) as u8,
                    ..self
                },
            )
        }
    }

    /// The newest return address is taken off the stack, its slot is cleared,
    /// and execution continues there.
    pub open spec fn ret(self) -> Result<State, Chip8Error> {
        if self.sp == 0 {
            Err(Chip8Error::StackUnderflow)
        } else {
            Ok(
                State {
                    pc: self.stack[self.sp - 1],
                    stack: self.stack.update(self.sp - 1, 0u16),
                    sp: (self.sp - 1) as u8,
                    ..self
                },
            )
        }
    }

    /// The sprite of `rows` rows at I is drawn at column Vx, row Vy, and VF
    /// says whether a lit cell went dark.
    pub open spec fn draw(self, x: u8, y: u8, rows: u8) -> Result<State, Chip8Error> {
        if rows > 0 && self.i + rows > MEMORY_SIZE {
            Err(Chip8Error::InvalidAddress(self.i))
        } else {
            let sprite = self.sprite(rows);
            let col0 = self.reg(x) as int;
            let row0 = self.reg(y) as int;
            Ok(
                State {
                    gfx: blit(self.gfx, sprite, col0, row0),
                    v: self.v.update(
                        FLAG_REG as int,
                        flag(collides(self.gfx, sprite, col0, row0)),
                    ),
                    ..self
                }.advance(),
            )
        }
    }

    /// A skip that depends on whether the key numbered Vx is held.
    pub open spec fn skip_on_key(self, x: u8, wanted: bool) -> Result<State, Chip8Error> {
        if self.reg(x) >= NUM_KEYS {
            Err(Chip8Error::InvalidKey(self.reg(x)))
        } else {
            Ok(self.skip_if(self.keys[self.reg(x) as int] == wanted))
        }
    }

    /// What one instruction does. `random` is the byte that `Rand` uses; no
    /// other instruction looks at it.
    pub open spec fn execute(self, op: Instruction, random: u8) -> Result<State, Chip8Error> {
        match op {
            Instruction::ClearDisplay => Ok(State { gfx: blank_display(), ..self }.advance()),
            Instruction::Return => self.ret(),
            Instruction::Jump(target) => Ok(State { pc: target, ..self }),
            Instruction::Call(target) => self.call(target),
            Instruction::SkipEqualConst(x, kk) => Ok(self.skip_if(self.reg(x) == kk)),
            Instruction::SkipNotEqualConst(x, kk) => Ok(self.skip_if(self.reg(x) != kk)),
            Instruction::SkipEqual(x, y) => Ok(self.skip_if(self.reg(x) == self.reg(y))),
            Instruction::SkipNotEqual(x, y) => Ok(self.skip_if(self.reg(x) != self.reg(y))),
            Instruction::SetVConst(x, kk) => Ok(self.with_reg(x, kk).advance()),
            Instruction::AddVConst(x, kk) => Ok(
                self.with_reg(x, ((self.reg(x) + kk) % 256) as u8).advance(),
            ),
            Instruction::SetV(x, y) => Ok(self.with_reg(x, self.reg(y)).advance()),
            Instruction::Or(x, y) => Ok(self.with_reg(x, self.reg(x) | self.reg(y)).advance()),
            Instruction::And(x, y) => Ok(self.with_reg(x, self.reg(x) & self.reg(y)).advance()),
            Instruction::Xor(x, y) => Ok(self.with_reg(x, self.reg(x) ^ self.reg(y)).advance()),
            Instruction::Add(x, y) => Ok(
                self.with_flagged(
                    x,
                    ((self.reg(x) + self.reg(y)) % 256) as u8,
                    self.reg(x) + self.reg(y) > 255,
                ).advance(),
            ),
            Instruction::Sub(x, y) => Ok(
                self.with_flagged(
                    x,
                    ((self.reg(x) - self.reg(y)) % 256) as u8,
                    self.reg(x) >= self.reg(y),
                ).advance(),
            ),
            Instruction::SubN(x, y) => Ok(
                self.with_flagged(
                    x,
                    ((self.reg(y) - self.reg(x)) % 256) as u8,
                    self.reg(y) >= self.reg(x),
                ).advance(),
            ),
            Instruction::ShiftRight(x) => Ok(
                self.with_flagged(x, (self.reg(x) / 2) as u8, self.reg(x) % 2 == 1).advance(),
            ),
            Instruction::ShiftLeft(x) => Ok(
                self.with_flagged(
                    x,
                    ((self.reg(x) * 2) % 256) as u8,
                    self.reg(x) >= 128,
                ).advance(),
            ),
            Instruction::SetI(value) => Ok(State { i: value, ..self }.advance()),
            Instruction::Rand(x, kk) => Ok(self.with_reg(x, random & kk).advance()),
            Instruction::Draw(x, y, rows) => self.draw(x, y, rows),
            Instruction::SkipPressed(x) => self.skip_on_key(x, true),
            Instruction::SkipNotPressed(x) => self.skip_on_key(x, false),
            Instruction::LoadDelay(x) => Ok(self.with_reg(x, self.delay_timer).advance()),
            Instruction::HaltUntilPressed(x) => match self.key_pressed {
                Some(key) => Ok(self.with_reg(x, key).advance()),
                None => Ok(self),
            },
            Instruction::SetDelay(x) => Ok(State { delay_timer: self.reg(x), ..self }.advance()),
            Instruction::SetSound(x) => Ok(State { sound_timer: self.reg(x), ..self }.advance()),
            Instruction::AddI(x) => Ok(
                State { i: ((self.i + self.reg(x)) % 0x10000) as u16, ..self }.advance(),
            ),
            Instruction::LoadFont(x) => Ok(
                State { i: (self.reg(x) * GLYPH_SIZE) as u16, ..self }.advance(),
            ),
            Instruction::StoreBcd(x) => if self.i + 2 >= MEMORY_SIZE {
                Err(Chip8Error::InvalidAddress(self.i))
            } else {
                Ok(self.with_bcd_stored(self.reg(x)).advance())
            },
            Instruction::StoreV(x) => if self.i + x >= MEMORY_SIZE {
                Err(Chip8Error::InvalidAddress(self.i))
            } else {
                Ok(self.with_registers_stored(x).advance())
            },
            Instruction::LoadV(x) => if self.i + x >= MEMORY_SIZE {
                Err(Chip8Error::InvalidAddress(self.i))
            } else {
                Ok(self.with_registers_loaded(x).advance())
            },
            Instruction::Unknown(_) => Err(Chip8Error::UnknownInstruction(op)),
        }
    }

    /// One cycle: fetch, decode, execute, and forget the last key press. The
    /// instruction that ran comes back with the new state; a failure leaves
    /// no new state.
    pub open spec fn cycle(self, random: u8) -> Result<(State, Instruction), Chip8Error> {
        match self.fetch() {
            Err(e) => Err(e),
            Ok(word) => match self.execute(decode(word), random) {
                Err(e) => Err(e),
                Ok(next) => Ok((State { key_pressed: None, ..next }, decode(word))),
            },
        }
    }

    /// Whether the next cycle needs a random byte.
    pub open spec fn wants_random(self) -> bool {
        self.pc_in_bounds() && decode(self.opcode()) is Rand
    }

    /// Whether the next cycle is a wait for a key press that finds none.
    pub open spec fn waits_for_key(self) -> bool {
        &&& self.pc_in_bounds()
        &&& decode(self.opcode()) is HaltUntilPressed
        &&& self.key_pressed is None
    }

    /// As many cycles as `randoms` has bytes, each with its byte, one after
    /// the other; the first failure ends the run.
    pub open spec fn run(self, randoms: Seq<u8>) -> Result<State, Chip8Error>
        decreases randoms.len(),
    {
        if randoms.len() == 0 {
            Ok(self)
        } else {
            match self.cycle(randoms[0]) {
                Err(e) => Err(e),
                Ok((next, _)) => next.run(randoms.drop_first()),
            }
        }
    }

    /// A call to each of `targets` in turn, with nothing in between; the first
    /// failure ends the chain.
    pub open spec fn call_chain(self, targets: Seq<u16>) -> Result<State, Chip8Error>
        decreases targets.len(),
    {
        if targets.len() == 0 {
            Ok(self)
        } else {
            match self.call(targets[0]) {
                Err(e) => Err(e),
                Ok(next) => next.call_chain(targets.drop_first()),
            }
        }
    }
}

} // verus!
