//! What holds of the machine whatever program it runs.
//!
//! Each proof function here states one property of the operations described
//! in [`crate::model`], over all states and operands that its `requires`
//! admits.

use vstd::prelude::*;
use crate::display::{
    cell_at, lemma_blit_twice, lemma_cell_offsets, lemma_second_blit_collides, lights_some,
    sprite_bit, sprite_covers, GFX_SIZE, SPRITE_WIDTH,
};
use crate::error::Chip8Error;
use crate::instruction::{decode, lemma_decode_well_formed, Instruction};
use crate::model::{
    bcd_hundreds, bcd_ones, bcd_tens, State, FLAG_REG, MAX_PROGRAM_SIZE, MEMORY_SIZE,
    MEMORY_START, NUM_KEYS, NUM_REGISTERS, OPCODE_SIZE, STACK_SIZE,
};

verus! {

/// An instruction with operands in range takes a machine in a valid state to
/// a valid state.
pub proof fn law_execute_keeps_validity(s: State, op: Instruction, random: u8)
    requires
        s.wf(),
        op.well_formed(),
    ensures
        s.execute(op, random) matches Ok(next) ==> next.wf(),
{
}

/// A cycle takes a machine in a valid state to a valid state.
pub proof fn law_cycle_keeps_validity(s: State, random: u8)
    requires
        s.wf(),
    ensures
        s.cycle(random) matches Ok((next, _)) ==> next.wf(),
{
    if s.pc_in_bounds() {
        lemma_decode_well_formed(s.opcode());
        law_execute_keeps_validity(s, decode(s.opcode()), random);
    }
}

/// Timer ticks, key events and program loads keep a valid state valid, and
/// the blank and the reset machine are valid.
pub proof fn law_host_operations_keep_validity(s: State, key: int, pressed: bool, program: Seq<u8>)
    requires
        s.wf(),
        0 <= key < NUM_KEYS,
    ensures
        State::blank().wf(),
        State::initial().wf(),
        s.tick().wf(),
        s.set_key(key, pressed).wf(),
        s.load(program) matches Ok(loaded) ==> loaded.wf(),
{
}

/// Only `Rand` reads the random byte: a cycle that runs any other instruction,
/// or fails to fetch one, comes out the same whatever the byte.
pub proof fn law_random_byte_matters_only_to_rand(s: State, r1: u8, r2: u8)
    requires
        !s.wants_random(),
    ensures
        s.cycle(r1) == s.cycle(r2),
{
}

/// Where a cycle leaves the program counter: a jump or a call at its target,
/// which lies within memory; a return at the newest return address; a wait
/// that finds no key press where it was; a skip one or two instructions on;
/// every other instruction one instruction on. So only a jump, a call or a
/// return can make an even program counter odd.
pub proof fn law_program_counter_steps(s: State, random: u8)
    requires
        s.wf(),
    ensures
        s.cycle(random) matches Ok((next, op)) ==> match op {
            Instruction::Jump(target) | Instruction::Call(target) => next.pc == target && target
                < MEMORY_SIZE,
            Instruction::Return => s.sp > 0 && next.pc == s.stack[s.sp - 1],
            Instruction::HaltUntilPressed(_) => next.pc == if s.key_pressed is Some {
                s.pc + OPCODE_SIZE
            } else {
                s.pc as int
            },
            Instruction::SkipEqualConst(_, _)
            | Instruction::SkipNotEqualConst(_, _)
            | Instruction::SkipEqual(_, _)
            | Instruction::SkipNotEqual(_, _)
            | Instruction::SkipPressed(_)
            | Instruction::SkipNotPressed(_) => next.pc == s.pc + OPCODE_SIZE || next.pc == s.pc + 2
                * OPCODE_SIZE,
            _ => next.pc == s.pc + OPCODE_SIZE,
        },
{
    if s.pc_in_bounds() {
        lemma_decode_well_formed(s.opcode());
    }
}

/// An opcode is stored high byte first: the byte at the program counter is
/// the upper half of the word and the byte after it the lower half.
pub proof fn law_opcode_is_big_endian(s: State)
    ensures
        s.opcode() / 256 == s.memory[s.pc as int],
        s.opcode() % 256 == s.memory[s.pc + 1],
{
}

/// The three digits that are stored for a byte are decimal digits, and they
/// stand for the byte: hundreds, tens and ones.
pub proof fn law_bcd_digits_stand_for_the_byte(value: u8)
    ensures
        bcd_hundreds(value) <= 2,
        bcd_tens(value) <= 9,
        bcd_ones(value) <= 9,
        100 * bcd_hundreds(value) + 10 * bcd_tens(value) + bcd_ones(value) == value,
{
}

/// Storing the digits of Vx writes three different bytes of memory, and no
/// others: hundreds at I, tens at I + 1, ones at I + 2.
pub proof fn law_store_bcd_writes_three_bytes(s: State, x: u8, random: u8)
    requires
        s.wf(),
        x < NUM_REGISTERS,
        s.i + 2 < MEMORY_SIZE,
    ensures
        s.execute(Instruction::StoreBcd(x), random) matches Ok(next) && {
            &&& next.memory[s.i as int] == bcd_hundreds(s.reg(x))
            &&& next.memory[s.i + 1] == bcd_tens(s.reg(x))
            &&& next.memory[s.i + 2] == bcd_ones(s.reg(x))
            &&& forall|a: int|
                0 <= a < MEMORY_SIZE && !(s.i <= a <= s.i + 2) ==> #[trigger] next.memory[a]
                    == s.memory[a]
        },
{
}

/// Every cycle that succeeds forgets the last key press, whether or not the
/// instruction looked at it.
pub proof fn law_cycle_forgets_key_press(s: State, random: u8)
    ensures
        s.cycle(random) matches Ok((next, _)) ==> next.key_pressed is None,
{
}

/// No cycle counts a timer down: a timer changes in a cycle only when the
/// instruction that sets it runs.
pub proof fn law_cycle_leaves_timers(s: State, random: u8)
    requires
        s.wf(),
    ensures
        s.cycle(random) matches Ok((next, op)) ==> {
            &&& !(op is SetDelay) ==> next.delay_timer == s.delay_timer
            &&& !(op is SetSound) ==> next.sound_timer == s.sound_timer
        },
{
}

/// The display changes in a cycle only when it is cleared or drawn on.
pub proof fn law_only_clear_and_draw_change_display(s: State, random: u8)
    requires
        s.wf(),
    ensures
        s.cycle(random) matches Ok((next, op)) ==> op is ClearDisplay || op is Draw || next.gfx
            == s.gfx,
{
}

/// A tick changes nothing but the timers, and stops each at zero.
pub proof fn law_tick_counts_down_to_zero(s: State)
    ensures
        s.tick() == (State {
            delay_timer: s.tick().delay_timer,
            sound_timer: s.tick().sound_timer,
            ..s
        }),
        s.tick().delay_timer == if s.delay_timer > 0 {
            s.delay_timer - 1
        } else {
            0
        },
        s.tick().sound_timer == if s.sound_timer > 0 {
            s.sound_timer - 1
        } else {
            0
        },
{
}

/// After the clear-display instruction every cell of the display is dark.
pub proof fn law_clear_display_darkens_every_cell(s: State, random: u8)
    ensures
        s.execute(Instruction::ClearDisplay, random) matches Ok(next) && forall|idx: int|
            0 <= idx < GFX_SIZE ==> !(#[trigger] next.gfx[idx]),
{
}

/// A program longer than the memory from the load address on is refused with
/// its length; any other program is loaded.
pub proof fn law_load_refuses_what_does_not_fit(s: State, program: Seq<u8>)
    ensures
        program.len() > MAX_PROGRAM_SIZE ==> s.load(program) == Err::<State, Chip8Error>(
            Chip8Error::InvalidProgramSize(program.len() as usize),
        ),
        program.len() <= MAX_PROGRAM_SIZE ==> s.load(program) is Ok,
{
}

/// A load puts the program at the load address and leaves every other byte of
/// memory, and everything outside memory, as it was.
pub proof fn law_load_changes_only_the_program_region(s: State, program: Seq<u8>)
    requires
        s.wf(),
        program.len() <= MAX_PROGRAM_SIZE,
    ensures
        s.load(program) matches Ok(loaded) && {
            &&& loaded == (State { memory: loaded.memory, ..s })
            &&& loaded.memory.len() == MEMORY_SIZE
            &&& forall|a: int|
                0 <= a < MEMORY_START ==> #[trigger] loaded.memory[a] == s.memory[a]
            &&& forall|k: int|
                0 <= k < program.len() ==> loaded.memory[MEMORY_START + k] == #[trigger] program[k]
            &&& forall|a: int|
                MEMORY_START + program.len() <= a < MEMORY_SIZE ==> #[trigger] loaded.memory[a]
                    == s.memory[a]
        },
{
}

/// A call succeeds exactly when a stack slot is free, and a return exactly
/// when a call is outstanding; a return after a call continues behind the
/// call.
pub proof fn law_call_and_return(s: State, target: u16, random: u8)
    requires
        s.wf(),
        s.pc_in_bounds(),
    ensures
        s.sp >= STACK_SIZE ==> s.execute(Instruction::Call(target), random) == Err::<
            State,
            Chip8Error,
        >(Chip8Error::StackOverflow),
        s.sp == 0 ==> s.execute(Instruction::Return, random) == Err::<State, Chip8Error>(
            Chip8Error::StackUnderflow,
        ),
        s.sp > 0 ==> (s.execute(Instruction::Return, random) matches Ok(back) && back.sp == s.sp
            - 1),
        s.sp < STACK_SIZE ==> (s.execute(Instruction::Call(target), random) matches Ok(called) && {
            &&& called.pc == target
            &&& called.sp == s.sp + 1
            &&& called.execute(Instruction::Return, random) matches Ok(back)
            &&& back.pc == s.pc + OPCODE_SIZE
            &&& back.sp == s.sp
        }),
{
}

/// Calls nested one in another succeed as long as the stack has a free slot
/// for each, and the first call too many fails with a stack overflow: from an
/// empty stack sixteen calls succeed and a seventeenth fails.
pub proof fn law_nested_calls(s: State, targets: Seq<u16>)
    requires
        s.wf(),
    ensures
        s.sp + targets.len() <= STACK_SIZE ==> (s.call_chain(targets) matches Ok(called)
            && called.sp == s.sp + targets.len()),
        s.sp + targets.len() > STACK_SIZE ==> s.call_chain(targets) == Err::<State, Chip8Error>(
            Chip8Error::StackOverflow,
        ),
    decreases targets.len(),
{
    if targets.len() > 0 {
        if let Ok(next) = s.call(targets[0]) {
            law_nested_calls(next, targets.drop_first());
        }
    }
}

/// Drawing the same sprite twice at the same place restores the display. The
/// second drawing reports a collision exactly when the first one lit a cell
/// that was dark.
///
/// The two coordinates must not come from VF, which the first drawing
/// overwrites.
pub proof fn law_draw_twice_restores_display(s: State, x: u8, y: u8, rows: u8, random: u8)
    requires
        s.wf(),
        s.pc_in_bounds(),
        x < FLAG_REG,
        y < FLAG_REG,
        rows < 16,
        rows > 0 ==> s.i + rows <= MEMORY_SIZE,
    ensures
        s.execute(Instruction::Draw(x, y, rows), random) matches Ok(once) && once.execute(
            Instruction::Draw(x, y, rows),
            random,
        ) matches Ok(twice) && {
            &&& twice.gfx == s.gfx
            &&& twice.reg(FLAG_REG) == 1 <==> lights_some(
                s.gfx,
                s.sprite(rows),
                s.reg(x) as int,
                s.reg(y) as int,
            )
            &&& twice.reg(FLAG_REG) == 0 || twice.reg(FLAG_REG) == 1
        },
{
    let sprite = s.sprite(rows);
    let col0 = s.reg(x) as int;
    let row0 = s.reg(y) as int;
    lemma_blit_twice(s.gfx, sprite, col0, row0);
    lemma_second_blit_collides(s.gfx, sprite, col0, row0);
    let once = s.execute(Instruction::Draw(x, y, rows), random).unwrap();
    assert(once.sprite(rows) =~= sprite);
}

/// A sprite with a set pixel, drawn twice at the same place on a display
/// whose cells are all dark, reports no collision the first time and a
/// collision the second time.
pub proof fn law_redraw_on_dark_display_collides(
    s: State,
    x: u8,
    y: u8,
    rows: u8,
    row: int,
    column: int,
    random: u8,
)
    requires
        s.wf(),
        s.pc_in_bounds(),
        x < FLAG_REG,
        y < FLAG_REG,
        rows < 16,
        s.i + rows <= MEMORY_SIZE,
        forall|idx: int| 0 <= idx < GFX_SIZE ==> !s.gfx[idx],
        0 <= row < rows,
        0 <= column < SPRITE_WIDTH,
        sprite_bit(s.memory[s.i + row], column),
    ensures
        s.execute(Instruction::Draw(x, y, rows), random) matches Ok(once) && once.execute(
            Instruction::Draw(x, y, rows),
            random,
        ) matches Ok(twice) && {
            &&& once.reg(FLAG_REG) == 0
            &&& twice.reg(FLAG_REG) == 1
            &&& twice.gfx == s.gfx
        },
{
    let sprite = s.sprite(rows);
    let col0 = s.reg(x) as int;
    let row0 = s.reg(y) as int;
    let cell = cell_at(col0, row0, row, column);
    lemma_cell_offsets(col0, row0, row, column, cell);
    assert(sprite_covers(sprite, col0, row0, cell));
    law_draw_twice_restores_display(s, x, y, rows, random);
}

/// A wait for a key press that finds none changes nothing at all: the program
/// counter stays, so the next cycle meets the same wait.
pub proof fn law_wait_without_key_press_stands_still(s: State, random: u8)
    requires
        s.wf(),
        s.waits_for_key(),
    ensures
        s.cycle(random) == Ok::<(State, Instruction), Chip8Error>((s, decode(s.opcode()))),
{
}

/// However many cycles run while the machine waits for a key press and none
/// comes, the machine stays as it is.
pub proof fn law_waiting_machine_never_advances(s: State, randoms: Seq<u8>)
    requires
        s.wf(),
        s.waits_for_key(),
    ensures
        s.run(randoms) == Ok::<State, Chip8Error>(s),
    decreases randoms.len(),
{
    if randoms.len() > 0 {
        law_wait_without_key_press_stands_still(s, randoms[0]);
        law_waiting_machine_never_advances(s, randoms.drop_first());
    }
}

/// A key going up and a timer tick leave a waiting machine waiting, at the
/// same program counter.
pub proof fn law_release_and_tick_keep_waiting(s: State, key: int)
    requires
        s.wf(),
        s.waits_for_key(),
        0 <= key < NUM_KEYS,
    ensures
        s.set_key(key, false).waits_for_key(),
        s.set_key(key, false).pc == s.pc,
        s.tick().waits_for_key(),
        s.tick().pc == s.pc,
{
}

/// One key press ends the wait: the next cycle puts the key's number in the
/// awaited register, moves to the next instruction and uses the press up.
pub proof fn law_key_press_ends_wait(s: State, key: int, random: u8)
    requires
        s.wf(),
        s.waits_for_key(),
        0 <= key < NUM_KEYS,
    ensures
        s.set_key(key, true).cycle(random) matches Ok((next, op)) && {
            &&& op == decode(s.opcode())
            &&& op matches Instruction::HaltUntilPressed(x) && next.reg(x) == key
            &&& next.pc == s.pc + OPCODE_SIZE
            &&& next.key_pressed is None
        },
{
    lemma_decode_well_formed(s.opcode());
}

/// A key press is used once: with no new press, a wait that comes after the
/// one that took it stands still and writes no register.
pub proof fn law_key_press_is_used_once(s: State, key: int, random: u8, later: u8)
    requires
        s.wf(),
        s.waits_for_key(),
        0 <= key < NUM_KEYS,
    ensures
        s.set_key(key, true).cycle(random) matches Ok((next, _)) && (decode(next.opcode())
            is HaltUntilPressed && next.pc_in_bounds() ==> next.cycle(later) == Ok::<
            (State, Instruction),
            Chip8Error,
        >((next, decode(next.opcode())))),
{
    law_key_press_ends_wait(s, key, random);
    law_cycle_keeps_validity(s.set_key(key, true), random);
    let next = s.set_key(key, true).cycle(random).unwrap().0;
    if decode(next.opcode()) is HaltUntilPressed && next.pc_in_bounds() {
        law_wait_without_key_press_stands_still(next, later);
    }
}

} // verus!
