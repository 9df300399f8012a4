//! The executable machine.
//!
//! [`Chip8`] keeps the state of the machine in fixed-size arrays. Its view is
//! the [`State`] with the same contents, and the contract of every operation
//! says which function of [`crate::model`] takes the view before the call to
//! the view after it. An operation that fails returns the reason and leaves
//! the machine as it was.

use vstd::prelude::*;
use crate::display::{
    blank_display, blit_before, collides_before, lemma_blit_end, lemma_blit_row_end, lemma_blit_start,
    lemma_blit_step, GFX_HEIGHT, GFX_SIZE, GFX_WIDTH,
};
use crate::error::{Chip8Error, Chip8Result};
use crate::font::{font, FONT, FONT_SIZE, GLYPH_SIZE};
use crate::instruction::{decode, lemma_decode_well_formed, Instruction};
use crate::model::{
    State, FLAG_REG, MAX_PROGRAM_SIZE, MEMORY_SIZE, MEMORY_START, NUM_KEYS, NUM_REGISTERS,
    OPCODE_SIZE, STACK_SIZE,
};
use crate::random::os_random_byte;

verus! {

/// A CHIP-8 machine. It owns all of its state; the host loads a program,
/// reports key events and timer ticks, runs cycles and reads the display.
pub struct Chip8 {
    memory: [u8; MEMORY_SIZE],
    v: [u8; NUM_REGISTERS],
    i: u16,
    pc: u16,
    stack: [u16; STACK_SIZE],
    sp: u8,
    gfx: [bool; GFX_SIZE],
    delay_timer: u8,
    sound_timer: u8,
    keys: [bool; NUM_KEYS],
    key_pressed: Option<u8>,
}

impl View for Chip8 {
    type V = State;

    closed spec fn view(&self) -> State {
        State {
            memory: self.memory@,
            v: self.v@,
            i: self.i,
            pc: self.pc,
            stack: self.stack@,
            sp: self.sp,
            gfx: self.gfx@,
            delay_timer: self.delay_timer,
            sound_timer: self.sound_timer,
            keys: self.keys@,
            key_pressed: self.key_pressed,
        }
    }
}

impl Chip8 {
    /// Whether the machine is in a valid state. Every machine that `new` or
    /// `default` made is, and every operation keeps it so.
    pub open spec fn wf(&self) -> bool {
        self@.wf()
    }

    /// A blank machine: everything zero, the program counter at the load
    /// address. The font is not in memory before `init` has run.
    pub fn new() -> (chip8: Chip8)
        ensures
            chip8.wf(),
            chip8@ == State::blank(),
    {
        Chip8 {
            memory: [0; MEMORY_SIZE],
            v: [0; NUM_REGISTERS],
            i: 0,
            pc: MEMORY_START as u16,
            stack: [0; STACK_SIZE],
            sp: 0,
            gfx: [false; GFX_SIZE],
            delay_timer: 0,
            sound_timer: 0,
            keys: [false; NUM_KEYS],
            key_pressed: None,
        }
    }

    /// Resets the machine: everything is cleared and the font is put at the
    /// start of memory.
    pub fn init(&mut self)
        ensures
            final(self).wf(),
            final(self)@ == State::initial(),
    {
        self.i = 0;
        self.memory = [0; MEMORY_SIZE];
        self.v = [0; NUM_REGISTERS];
        self.pc = MEMORY_START as u16;
        self.stack = [0; STACK_SIZE];
        self.sp = 0;
        self.gfx = [false; GFX_SIZE];
        self.delay_timer = 0;
        self.sound_timer = 0;
        self.keys = [false; NUM_KEYS];
        self.key_pressed = None;
        let mut a: usize = 0;
        while a < FONT_SIZE
            invariant
                a <= FONT_SIZE,
                self@ == (State {
                    memory: Seq::new(
                        MEMORY_SIZE as nat,
                        |b: int|
                            if b < a {
                                font()[b]
                            } else {
                                0u8
                            },
                    ),
                    ..State::blank()
                }),
            decreases FONT_SIZE - a,
        {
            self.memory[a] = FONT[a];
            a += 1;
        }
    }

    /// Copies a program to the load address. A program that does not fit
    /// between there and the end of memory is refused whole.
    pub fn load(&mut self, data: &[u8]) -> (r: Chip8Result<()>)
        requires
            old(self).wf(),
        ensures
            final(self).wf(),
            match old(self)@.load(data@) {
                Ok(loaded) => r is Ok && final(self)@ == loaded,
                Err(e) => r == Err::<(), Chip8Error>(e) && final(self)@ == old(self)@,
            },
    {
        let len = data.len();
        if len > MAX_PROGRAM_SIZE {
            return Err(Chip8Error::InvalidProgramSize(len));
        }
        let mut k: usize = 0;
        while k < len
            invariant
                k <= len,
                len == data@.len(),
                len <= MAX_PROGRAM_SIZE,
                self@ == old(self)@.with_program(data@.take(k as int)),
            decreases len - k,
        {
            self.memory[MEMORY_START + k] = data[k];
            k += 1;
        }
        assert(data@.take(len as int) == data@);
        Ok(())
    }

    /// One tick of the 60 Hz clock: each timer that is not zero goes down by
    /// one. The host calls this at its own pace; no cycle counts a timer down.
    pub fn update_timers(&mut self)
        requires
            old(self).wf(),
        ensures
            final(self).wf(),
            final(self)@ == old(self)@.tick(),
    {
        if self.delay_timer != 0 {
            self.delay_timer -= 1;
        }
        if self.sound_timer != 0 {
            self.sound_timer -= 1;
        }
    }

    /// Reports that a key went down or up. A key going down is remembered as
    /// the last key press until the next cycle has run.
    pub fn set_key(&mut self, key: usize, data: bool)
        requires
            old(self).wf(),
            key < NUM_KEYS,
        ensures
            final(self).wf(),
            final(self)@ == old(self)@.set_key(key as int, data),
    {
        self.keys[key] = data;
        if data {
            self.key_pressed = Some(key as u8);
        }
    }

    /// The value of register V`reg`, or `InvalidReg` if there is no such
    /// register.
    pub fn read_reg(&self, reg: u8) -> (r: Chip8Result<u8>)
        ensures
            reg < NUM_REGISTERS ==> r == Ok::<u8, Chip8Error>(self@.reg(reg)),
            reg >= NUM_REGISTERS ==> r == Err::<u8, Chip8Error>(Chip8Error::InvalidReg(reg)),
    {
        if (reg as usize) < NUM_REGISTERS {
            Ok(self.v[reg as usize])
        } else {
            Err(Chip8Error::InvalidReg(reg))
        }
    }

    /// Puts `value` in register V`reg`, or reports `InvalidReg` and changes
    /// nothing if there is no such register.
    pub fn write_reg(&mut self, reg: u8, value: u8) -> (r: Chip8Result<()>)
        requires
            old(self).wf(),
        ensures
            final(self).wf(),
            reg < NUM_REGISTERS ==> (r is Ok && final(self)@ == old(self)@.with_reg(reg, value)),
            reg >= NUM_REGISTERS ==> (r == Err::<(), Chip8Error>(Chip8Error::InvalidReg(reg))
                && final(self)@ == old(self)@),
    {
        if (reg as usize) < NUM_REGISTERS {
            self.v[reg as usize] = value;
            Ok(())
        } else {
            Err(Chip8Error::InvalidReg(reg))
        }
    }

    /// The word at the program counter, high byte first.
    fn fetch(&self) -> (r: Chip8Result<u16>)
        requires
            self.wf(),
        ensures
            r == self@.fetch(),
    {
        if self.pc as usize + 1 >= MEMORY_SIZE {
            return Err(Chip8Error::ProgramCounterOutOfBounds(self.pc));
        }
        let high = self.memory[self.pc as usize];
        let low = self.memory[self.pc as usize + 1];
        Ok(high as u16 * 256 + low as u16)
    }

    /// Moves the program counter to the next instruction.
    fn advance(&mut self)
        requires
            old(self)@.pc_in_bounds(),
        ensures
            final(self)@ == old(self)@.advance(),
    {
        self.pc = self.pc + OPCODE_SIZE;
    }

    /// Moves the program counter past the next instruction if `condition`
    /// holds, and to it otherwise.
    fn skip_if(&mut self, condition: bool)
        requires
            old(self)@.pc_in_bounds(),
        ensures
            final(self)@ == old(self)@.skip_if(condition),
    {
        if condition {
            self.pc = self.pc + 2 * OPCODE_SIZE;
        } else {
            self.pc = self.pc + OPCODE_SIZE;
        }
    }

    /// Puts `value` in Vx.
    fn set_reg(&mut self, x: u8, value: u8)
        requires
            x < NUM_REGISTERS,
        ensures
            final(self)@ == old(self)@.with_reg(x, value),
    {
        self.v[x as usize] = value;
    }

    /// Puts the flag in VF and then `value` in Vx.
    fn set_flagged(&mut self, x: u8, value: u8, condition: bool)
        requires
            x < NUM_REGISTERS,
        ensures
            final(self)@ == old(self)@.with_flagged(x, value, condition),
    {
        self.v[FLAG_REG as usize] = if condition {
            1
        } else {
            0
        };
        self.v[x as usize] = value;
    }

    /// Puts a return address on the call stack, if a slot is free.
    fn push_stack(&mut self, data: u16) -> (r: Chip8Result<()>)
        requires
            old(self).wf(),
        ensures
            final(self).wf(),
            old(self)@.sp < STACK_SIZE ==> (r is Ok && final(self)@ == (State {
                stack: old(self)@.stack.update(old(self)@.sp as int, data),
                sp: (old(self)@.sp + 1) as u8,
                ..old(self)@
            })),
            old(self)@.sp >= STACK_SIZE ==> (r == Err::<(), Chip8Error>(Chip8Error::StackOverflow)
                && final(self)@ == old(self)@),
    {
        if self.sp as usize >= STACK_SIZE {
            return Err(Chip8Error::StackOverflow);
        }
        self.stack[self.sp as usize] = data;
        self.sp += 1;
        Ok(())
    }

    /// Takes the newest return address off the call stack and clears its
    /// slot, if the stack holds one.
    fn pop_stack(&mut self) -> (r: Chip8Result<u16>)
        requires
            old(self).wf(),
        ensures
            final(self).wf(),
            old(self)@.sp > 0 ==> (r == Ok::<u16, Chip8Error>(
                old(self)@.stack[old(self)@.sp - 1],
            ) && final(self)@ == (State {
                stack: old(self)@.stack.update(old(self)@.sp - 1, 0u16),
                sp: (old(self)@.sp - 1) as u8,
                ..old(self)@
            })),
            old(self)@.sp == 0 ==> (r == Err::<u16, Chip8Error>(Chip8Error::StackUnderflow)
                && final(self)@ == old(self)@),
    {
        if self.sp == 0 {
            return Err(Chip8Error::StackUnderflow);
        }
        self.sp -= 1;
        let ret = self.stack[self.sp as usize];
        self.stack[self.sp as usize] = 0;
        Ok(ret)
    }

    /// Draws the sprite of `rows` rows at I to column Vx, row Vy, pixel by
    /// pixel, and leaves in VF whether a lit cell went dark.
    fn draw(&mut self, x: u8, y: u8, rows: u8) -> (r: Chip8Result<()>)
        requires
            old(self).wf(),
            old(self)@.pc_in_bounds(),
            x < NUM_REGISTERS,
            y < NUM_REGISTERS,
            rows < 16,
        ensures
            final(self).wf(),
            follows(old(self)@.draw(x, y, rows), old(self)@, final(self)@, r),
    {
        if rows > 0 && self.i as usize + rows as usize > MEMORY_SIZE {
            return Err(Chip8Error::InvalidAddress(self.i));
        }
        let col0 = self.v[x as usize];
        let row0 = self.v[y as usize];
        let ghost before = self@;
        let ghost sprite = before.sprite(rows);
        let mut collision = false;
        let mut r: u8 = 0;
        proof {
            lemma_blit_start(before.gfx, sprite, col0 as int, row0 as int);
        }
        while r < rows
            invariant
                r <= rows < 16,
                before.wf(),
                rows > 0 ==> before.i + rows <= MEMORY_SIZE,
                sprite == before.sprite(rows),
                self@ == (State {
                    gfx: blit_before(before.gfx, sprite, col0 as int, row0 as int, r as int, 0),
                    ..before
                }),
                collision == collides_before(
                    before.gfx,
                    sprite,
                    col0 as int,
                    row0 as int,
                    r as int,
                    0,
                ),
            decreases rows - r,
        {
            let bits = self.memory[self.i as usize + r as usize];
            let row = (row0 as usize + r as usize) % GFX_HEIGHT;
            let mut b: u8 = 0;
            while b < 8
                invariant
                    b <= 8,
                    r < rows < 16,
                    before.wf(),
                    sprite.len() == rows,
                    bits == sprite[r as int],
                    row == (row0 + r) % (GFX_HEIGHT as int),
                    self@ == (State {
                        gfx: blit_before(
                            before.gfx,
                            sprite,
                            col0 as int,
                            row0 as int,
                            r as int,
                            b as int,
                        ),
                        ..before
                    }),
                    collision == collides_before(
                        before.gfx,
                        sprite,
                        col0 as int,
                        row0 as int,
                        r as int,
                        b as int,
                    ),
                decreases 8 - b,
            {
                let col = (col0 as usize + b as usize) % GFX_WIDTH;
                let cell = row * GFX_WIDTH + col;
                proof {
                    lemma_blit_step(before.gfx, sprite, col0 as int, row0 as int, r as int, b as int);
                }
                if bits & (0x80u8 >> b) != 0 {
                    if self.gfx[cell] {
                        collision = true;
                    }
                    self.gfx[cell] = !self.gfx[cell];
                }
                b += 1;
            }
            proof {
                lemma_blit_row_end(before.gfx, sprite, col0 as int, row0 as int, r as int);
            }
            r += 1;
        }
        proof {
            lemma_blit_end(before.gfx, sprite, col0 as int, row0 as int);
        }
        self.v[FLAG_REG as usize] = if collision {
            1
        } else {
            0
        };
        self.advance();
        Ok(())
    }

    /// Stores the decimal digits of Vx at I, I+1 and I+2.
    fn store_bcd(&mut self, x: u8) -> (r: Chip8Result<()>)
        requires
            old(self).wf(),
            old(self)@.pc_in_bounds(),
            x < NUM_REGISTERS,
        ensures
            final(self).wf(),
            follows(
                old(self)@.execute(Instruction::StoreBcd(x), 0),
                old(self)@,
                final(self)@,
                r,
            ),
    {
        if self.i as usize + 2 >= MEMORY_SIZE {
            return Err(Chip8Error::InvalidAddress(self.i));
        }
        let value = self.v[x as usize];
        let at = self.i as usize;
        self.memory[at] = value / 100;
        self.memory[at + 1] = (value / 10) % 10;
        self.memory[at + 2] = value % 10;
        self.advance();
        Ok(())
    }

    /// Stores V0..Vx in memory from I on.
    fn store_registers(&mut self, x: u8) -> (r: Chip8Result<()>)
        requires
            old(self).wf(),
            old(self)@.pc_in_bounds(),
            x < NUM_REGISTERS,
        ensures
            final(self).wf(),
            follows(old(self)@.execute(Instruction::StoreV(x), 0), old(self)@, final(self)@, r),
    {
        if self.i as usize + x as usize >= MEMORY_SIZE {
            return Err(Chip8Error::InvalidAddress(self.i));
        }
        let at = self.i as usize;
        let mut k: u8 = 0;
        while k <= x
            invariant
                k <= x + 1,
                x < NUM_REGISTERS,
                at == old(self)@.i,
                at + x < MEMORY_SIZE,
                old(self).wf(),
                k == 0 ==> self@ == old(self)@,
                k > 0 ==> self@ == old(self)@.with_registers_stored((k - 1) as u8),
            decreases x + 1 - k,
        {
            self.memory[at + k as usize] = self.v[k as usize];
            k += 1;
        }
        self.advance();
        Ok(())
    }

    /// Reads V0..Vx from memory at I.
    fn load_registers(&mut self, x: u8) -> (r: Chip8Result<()>)
        requires
            old(self).wf(),
            old(self)@.pc_in_bounds(),
            x < NUM_REGISTERS,
        ensures
            final(self).wf(),
            follows(old(self)@.execute(Instruction::LoadV(x), 0), old(self)@, final(self)@, r),
    {
        if self.i as usize + x as usize >= MEMORY_SIZE {
            return Err(Chip8Error::InvalidAddress(self.i));
        }
        let at = self.i as usize;
        let mut k: u8 = 0;
        while k <= x
            invariant
                k <= x + 1,
                x < NUM_REGISTERS,
                at == old(self)@.i,
                at + x < MEMORY_SIZE,
                old(self).wf(),
                k == 0 ==> self@ == old(self)@,
                k > 0 ==> self@ == old(self)@.with_registers_loaded((k - 1) as u8),
            decreases x + 1 - k,
        {
            self.v[k as usize] = self.memory[at + k as usize];
            k += 1;
        }
        self.advance();
        Ok(())
    }

    /// Skips the next instruction if the key numbered Vx is held (`wanted`)
    /// or is not held (`!wanted`).
    fn skip_on_key(&mut self, x: u8, wanted: bool) -> (r: Chip8Result<()>)
        requires
            old(self).wf(),
            old(self)@.pc_in_bounds(),
            x < NUM_REGISTERS,
        ensures
            final(self).wf(),
            follows(old(self)@.skip_on_key(x, wanted), old(self)@, final(self)@, r),
    {
        let key = self.v[x as usize];
        if key as usize >= NUM_KEYS {
            return Err(Chip8Error::InvalidKey(key));
        }
        let held = self.keys[key as usize];
        self.skip_if(held == wanted);
        Ok(())
    }

    /// The instructions that only redirect control: jumps, calls, returns and
    /// skips.
    fn execute_control(&mut self, op: &Instruction) -> (r: Chip8Result<()>)
        requires
            old(self).wf(),
            old(self)@.pc_in_bounds(),
            op.well_formed(),
            op.is_control(),
        ensures
            final(self).wf(),
            follows(old(self)@.execute(*op, 0), old(self)@, final(self)@, r),
    {
        match *op {
            Instruction::Return => {
                let target = self.pop_stack()?;
                self.pc = target;
            },
            Instruction::Jump(target) => {
                self.pc = target;
            },
            Instruction::Call(target) => {
                self.push_stack(self.pc + OPCODE_SIZE)?;
                self.pc = target;
            },
            Instruction::SkipEqualConst(x, kk) => {
                self.skip_if(self.v[x as usize] == kk);
            },
            Instruction::SkipNotEqualConst(x, kk) => {
                self.skip_if(self.v[x as usize] != kk);
            },
            Instruction::SkipEqual(x, y) => {
                self.skip_if(self.v[x as usize] == self.v[y as usize]);
            },
            Instruction::SkipNotEqual(x, y) => {
                self.skip_if(self.v[x as usize] != self.v[y as usize]);
            },
            Instruction::SkipPressed(x) => {
                self.skip_on_key(x, true)?;
            },
            Instruction::SkipNotPressed(x) => {
                self.skip_on_key(x, false)?;
            },
            _ => {},
        }
        Ok(())
    }

    /// The instructions that compute a register from registers, a constant,
    /// the delay timer or the random byte.
    fn execute_arithmetic(&mut self, op: &Instruction, random: u8)
        requires
            old(self).wf(),
            old(self)@.pc_in_bounds(),
            op.well_formed(),
            op.is_arithmetic(),
        ensures
            final(self).wf(),
            old(self)@.execute(*op, random) == Ok::<State, Chip8Error>(final(self)@),
    {
        match *op {
            Instruction::SetVConst(x, kk) => {
                self.set_reg(x, kk);
            },
            Instruction::AddVConst(x, kk) => {
                let (sum, _) = add_bytes(self.v[x as usize], kk);
                self.set_reg(x, sum);
            },
            Instruction::SetV(x, y) => {
                let vy = self.v[y as usize];
                self.set_reg(x, vy);
            },
            Instruction::Or(x, y) => {
                let vx = self.v[x as usize];
                let vy = self.v[y as usize];
                self.set_reg(x, vx | vy);
            },
            Instruction::And(x, y) => {
                let vx = self.v[x as usize];
                let vy = self.v[y as usize];
                self.set_reg(x, vx & vy);
            },
            Instruction::Xor(x, y) => {
                let vx = self.v[x as usize];
                let vy = self.v[y as usize];
                self.set_reg(x, vx ^ vy);
            },
            Instruction::Add(x, y) => {
                let (sum, carry) = add_bytes(self.v[x as usize], self.v[y as usize]);
                self.set_flagged(x, sum, carry);
            },
            Instruction::Sub(x, y) => {
                let (difference, no_borrow) = sub_bytes(self.v[x as usize], self.v[y as usize]);
                self.set_flagged(x, difference, no_borrow);
            },
            Instruction::SubN(x, y) => {
                let (difference, no_borrow) = sub_bytes(self.v[y as usize], self.v[x as usize]);
                self.set_flagged(x, difference, no_borrow);
            },
            Instruction::ShiftRight(x) => {
                let (half, low_bit) = shift_right(self.v[x as usize]);
                self.set_flagged(x, half, low_bit);
            },
            Instruction::ShiftLeft(x) => {
                let (double, high_bit) = shift_left(self.v[x as usize]);
                self.set_flagged(x, double, high_bit);
            },
            Instruction::Rand(x, kk) => {
                self.set_reg(x, random & kk);
            },
            Instruction::LoadDelay(x) => {
                self.set_reg(x, self.delay_timer);
            },
            _ => {},
        }
        self.advance();
    }

    /// Applies one instruction to the machine. `random` is the byte that
    /// `Rand` masks; no other instruction reads it.
    fn execute(&mut self, op: &Instruction, random: u8) -> (r: Chip8Result<()>)
        requires
            old(self).wf(),
            old(self)@.pc_in_bounds(),
            op.well_formed(),
        ensures
            final(self).wf(),
            follows(old(self)@.execute(*op, random), old(self)@, final(self)@, r),
    {
        match *op {
            Instruction::Return
            | Instruction::Jump(_)
            | Instruction::Call(_)
            | Instruction::SkipEqualConst(_, _)
            | Instruction::SkipNotEqualConst(_, _)
            | Instruction::SkipEqual(_, _)
            | Instruction::SkipNotEqual(_, _)
            | Instruction::SkipPressed(_)
            | Instruction::SkipNotPressed(_) => {
                self.execute_control(op)?;
            },
            Instruction::SetVConst(_, _)
            | Instruction::AddVConst(_, _)
            | Instruction::SetV(_, _)
            | Instruction::Or(_, _)
            | Instruction::And(_, _)
            | Instruction::Xor(_, _)
            | Instruction::Add(_, _)
            | Instruction::Sub(_, _)
            | Instruction::SubN(_, _)
            | Instruction::ShiftRight(_)
            | Instruction::ShiftLeft(_)
            | Instruction::Rand(_, _)
            | Instruction::LoadDelay(_) => {
                self.execute_arithmetic(op, random);
            },
            Instruction::ClearDisplay => {
                self.gfx = [false; GFX_SIZE];
                assert(self.gfx@ =~= blank_display());
                self.advance();
            },
            Instruction::Draw(x, y, rows) => {
                self.draw(x, y, rows)?;
            },
            Instruction::SetI(value) => {
                self.i = value;
                self.advance();
            },
            Instruction::HaltUntilPressed(x) => {
                if let Some(key) = self.key_pressed {
                    self.set_reg(x, key);
                    self.advance();
                }
            },
            Instruction::SetDelay(x) => {
                self.delay_timer = self.v[x as usize];
                self.advance();
            },
            Instruction::SetSound(x) => {
                self.sound_timer = self.v[x as usize];
                self.advance();
            },
            Instruction::AddI(x) => {
                self.i = add_to_index(self.i, self.v[x as usize]);
                self.advance();
            },
            Instruction::LoadFont(x) => {
                let vx = self.v[x as usize];
                self.i = vx as u16 * GLYPH_SIZE as u16;
                self.advance();
            },
            Instruction::StoreBcd(x) => {
                self.store_bcd(x)?;
            },
            Instruction::StoreV(x) => {
                self.store_registers(x)?;
            },
            Instruction::LoadV(x) => {
                self.load_registers(x)?;
            },
            Instruction::Unknown(_) => {
                return Err(Chip8Error::UnknownInstruction(*op));
            },
        }
        Ok(())
    }

    /// Runs the instruction `op`, which was fetched from the program counter,
    /// and ends the cycle: the last key press is forgotten.
    fn finish_cycle(&mut self, op: Instruction, random: u8) -> (r: Chip8Result<Instruction>)
        requires
            old(self).wf(),
            old(self)@.pc_in_bounds(),
            op == decode(old(self)@.opcode()),
        ensures
            final(self).wf(),
            cycle_follows(old(self)@.cycle(random), old(self)@, final(self)@, r),
    {
        proof {
            lemma_decode_well_formed(self@.opcode());
        }
        self.execute(&op, random)?;
        self.key_pressed = None;
        Ok(op)
    }

    /// Runs one cycle with a random byte of the caller's choosing: fetches the
    /// word at the program counter, decodes it, executes the instruction and
    /// forgets the last key press. The instruction that ran is returned.
    ///
    /// `random` is what a `Rand` instruction masks; no other instruction reads
    /// it. A cycle that fails changes nothing and returns the reason.
    pub fn cycle_with(&mut self, random: u8) -> (r: Chip8Result<Instruction>)
        requires
            old(self).wf(),
        ensures
            final(self).wf(),
            cycle_follows(old(self)@.cycle(random), old(self)@, final(self)@, r),
    {
        let word = self.fetch()?;
        let op = Instruction::from(word);
        self.finish_cycle(op, random)
    }

    /// Runs one cycle and returns the instruction that ran.
    ///
    /// A `Rand` instruction takes its byte from the operating system. Where
    /// the next instruction is not `Rand` the cycle is `cycle_with`, whatever
    /// the byte. Where it is, the cycle is `cycle_with` for the byte that the
    /// system gave, or fails with `RandomSourceFailed` and changes nothing if
    /// the system gave none.
    pub fn cycle(&mut self) -> (r: Chip8Result<Instruction>)
        requires
            old(self).wf(),
        ensures
            final(self).wf(),
            !old(self)@.wants_random() ==> cycle_follows(
                old(self)@.cycle(0),
                old(self)@,
                final(self)@,
                r,
            ),
            old(self)@.wants_random() ==> {
                ||| r == Err::<Instruction, Chip8Error>(Chip8Error::RandomSourceFailed)
                    && final(self)@ == old(self)@
                ||| exists|random: u8|
                    cycle_follows(
                        #[trigger] old(self)@.cycle(random),
                        old(self)@,
                        final(self)@,
                        r,
                    )
            },
    {
        let word = self.fetch()?;
        let op = Instruction::from(word);
        let random: u8 = match op {
            Instruction::Rand(_, _) => match os_random_byte() {
                Some(byte) => byte,
                None => {
                    return Err(Chip8Error::RandomSourceFailed);
                },
            },
            _ => 0,
        };
        self.finish_cycle(op, random)
    }

    /// The program counter.
    pub fn pc(&self) -> (r: u16)
        ensures
            r == self@.pc,
    {
        self.pc
    }

    /// The index register I.
    pub fn index(&self) -> (r: u16)
        ensures
            r == self@.i,
    {
        self.i
    }

    /// The registers V0..VF.
    pub fn registers(&self) -> (r: &[u8; NUM_REGISTERS])
        ensures
            r@ == self@.v,
    {
        &self.v
    }

    /// The sixteen slots of the call stack.
    pub fn stack(&self) -> (r: &[u16; STACK_SIZE])
        ensures
            r@ == self@.stack,
    {
        &self.stack
    }

    /// The number of return addresses on the call stack.
    pub fn sp(&self) -> (r: u8)
        ensures
            r == self@.sp,
    {
        self.sp
    }

    /// The delay timer.
    pub fn delay_timer(&self) -> (r: u8)
        ensures
            r == self@.delay_timer,
    {
        self.delay_timer
    }

    /// The sound timer.
    pub fn sound_timer(&self) -> (r: u8)
        ensures
            r == self@.sound_timer,
    {
        self.sound_timer
    }

    /// The whole memory.
    pub fn memory(&self) -> (r: &[u8; MEMORY_SIZE])
        ensures
            r@ == self@.memory,
    {
        &self.memory
    }

    /// The display, row by row: the cell in column `c` of row `r` is at
    /// `r * GFX_WIDTH + c`.
    pub fn framebuffer(&self) -> (r: &[bool; GFX_SIZE])
        ensures
            r@ == self@.gfx,
    {
        &self.gfx
    }
}

impl Default for Chip8 {
    /// A blank machine, as `new` gives it.
    fn default() -> (chip8: Chip8)
        ensures
            chip8.wf(),
            chip8@ == State::blank(),
    {
        Chip8::new()
    }
}

/// How a cycle relates to its description: where the description gives a new
/// state and an instruction the cycle returns the instruction and the machine
/// is in that state, and where it gives an error the cycle returns that error
/// and the machine is as before.
pub open spec fn cycle_follows(
    expected: Result<(State, Instruction), Chip8Error>,
    before: State,
    after: State,
    r: Chip8Result<Instruction>,
) -> bool {
    match expected {
        Ok((next, op)) => r == Ok::<Instruction, Chip8Error>(op) && after == next,
        Err(e) => r == Err::<Instruction, Chip8Error>(e) && after == before,
    }
}

/// The sum of two bytes modulo 256, and whether it passed 255.
fn add_bytes(a: u8, b: u8) -> (r: (u8, bool))
    ensures
        r.0 == (a + b) % 256,
        r.1 == (a + b > 255),
{
    let sum: u16 = a as u16 + b as u16;
    ((sum % 256) as u8, sum > 255)
}

/// The difference of two bytes modulo 256, and whether no borrow was needed.
fn sub_bytes(a: u8, b: u8) -> (r: (u8, bool))
    ensures
        r.0 == (a - b) % 256,
        r.1 == (a >= b),
{
    (a.wrapping_sub(b), a >= b)
}

/// An address moved forward by a byte, modulo 65536.
fn add_to_index(index: u16, offset: u8) -> (r: u16)
    ensures
        r == (index + offset) % 0x10000,
{
    index.wrapping_add(offset as u16)
}

/// A byte shifted right by one, and whether its lowest bit was set.
fn shift_right(a: u8) -> (r: (u8, bool))
    ensures
        r.0 == a / 2,
        r.1 == (a % 2 == 1),
{
    assert(a >> 1 == a / 2 && (a & 1 == 1) == (a % 2 == 1)) by (bit_vector);
    (a >> 1, a & 1 == 1)
}

/// A byte shifted left by one, and whether its highest bit was set.
fn shift_left(a: u8) -> (r: (u8, bool))
    ensures
        r.0 == (a * 2) % 256,
        r.1 == (a >= 128),
{
    assert(a << 1 == (a * 2) % 256 && (a & 0x80 != 0) == (a >= 128)) by (bit_vector);
    (a << 1, a & 0x80 != 0)
}

/// How an operation that may fail relates to its description: where the
/// description gives a new state the operation succeeds and the machine is in
/// that state, and where it gives an error the operation returns that error
/// and the machine is as before.
pub open spec fn follows(
    expected: Result<State, Chip8Error>,
    before: State,
    after: State,
    r: Chip8Result<()>,
) -> bool {
    match expected {
        Ok(next) => r is Ok && after == next,
        Err(e) => r == Err::<(), Chip8Error>(e) && after == before,
    }
}

} // verus!
